use rpc_transactions::api::{broadcast_tx_async, send_tx, tx_status, SubmitVerdict};
use rpc_transactions::data::{
    AccountId, CryptoHash, ExecutionOutcome, RpcBroadcastTransactionRequest,
    RpcBroadcastWaitTransactionRequest, RpcTransactionStatusCommonRequest, SignedTransaction,
    TransactionInfo,
};
use rpc_transactions::errors::{InvalidTxError, RpcTransactionError};
use rpc_transactions::wait_level::{parse_wire_tag, RpcBroadcastWait};
use rpc_transactions::waiter::{admit_waiter, run_waiter, TrackingReport, WaitConfig, WaitOutcome};

fn hash_bytes() -> Vec<u8> {
    let mut v = Vec::new();
    for i in 0..32u8 {
        v.push(i);
    }
    v
}

fn hash() -> CryptoHash {
    CryptoHash { bytes: hash_bytes() }
}

fn signed_tx() -> SignedTransaction {
    SignedTransaction {
        hash: hash(),
        signer_account: AccountId { bytes: b"alice.near".to_vec() },
        payload: b"tx-payload".to_vec(),
    }
}

fn config() -> WaitConfig {
    WaitConfig {
        inclusion_polls: 4,
        inclusion_final_polls: 6,
        executed_polls: 8,
        executed_final_polls: 10,
        final_polls: 12,
    }
}

fn outcome(tag: &[u8]) -> ExecutionOutcome {
    ExecutionOutcome { payload: tag.to_vec() }
}

#[test]
fn broadcast_returns_hash_immediately() {
    let req = RpcBroadcastTransactionRequest { signed_transaction: signed_tx() };
    let r = broadcast_tx_async(&req, SubmitVerdict::Accepted).unwrap();
    assert_eq!(r.transaction_hash.bytes, hash_bytes());
}

#[test]
fn broadcast_surfaces_invalid_transaction() {
    let req = RpcBroadcastTransactionRequest { signed_transaction: signed_tx() };
    let r = broadcast_tx_async(
        &req,
        SubmitVerdict::Invalid { context: InvalidTxError::InvalidSignature },
    );
    match r {
        Err(RpcTransactionError::InvalidTransaction { context }) => {
            assert_eq!(context, InvalidTxError::InvalidSignature);
        }
        _ => panic!("expected the validation failure"),
    }
}

#[test]
fn no_wait_returns_hash_only_whatever_execution_does() {
    // even a script full of progress never puts an outcome in a NoWait response
    let script = vec![TrackingReport::Progress {
        milestone: RpcBroadcastWait::Final,
        outcome: outcome(b"done"),
    }];
    let req = RpcBroadcastWaitTransactionRequest {
        signed_transaction: signed_tx(),
        rpc_broadcast_wait_type: RpcBroadcastWait::NoWait,
    };
    let r = send_tx(&req, SubmitVerdict::Accepted, &config(), &script).unwrap();
    assert_eq!(r.transaction_hash.bytes, hash_bytes());
    assert!(r.final_execution_outcome.is_none());
}

#[test]
fn wait_final_resolves_after_three_polls() {
    let script = vec![
        TrackingReport::NotYetVisible,
        TrackingReport::Progress {
            milestone: RpcBroadcastWait::Executed,
            outcome: outcome(b"partial"),
        },
        TrackingReport::Progress {
            milestone: RpcBroadcastWait::Final,
            outcome: outcome(b"final-outcome"),
        },
    ];
    let req = RpcBroadcastWaitTransactionRequest {
        signed_transaction: signed_tx(),
        rpc_broadcast_wait_type: RpcBroadcastWait::Final,
    };
    let r = send_tx(&req, SubmitVerdict::Accepted, &config(), &script).unwrap();
    assert_eq!(r.transaction_hash.bytes, hash_bytes());
    assert_eq!(r.final_execution_outcome.unwrap().payload, b"final-outcome".to_vec());
}

#[test]
fn wait_executed_times_out_when_service_stays_silent() {
    let script: Vec<TrackingReport> = Vec::new();
    let req = RpcBroadcastWaitTransactionRequest {
        signed_transaction: signed_tx(),
        rpc_broadcast_wait_type: RpcBroadcastWait::Executed,
    };
    let r = send_tx(&req, SubmitVerdict::Accepted, &config(), &script);
    assert!(matches!(r, Err(RpcTransactionError::TimeoutError)));
}

#[test]
fn routing_supersedes_earlier_progress() {
    // milestone progress was already made, then the service reports routing
    let script = vec![
        TrackingReport::Progress {
            milestone: RpcBroadcastWait::Executed,
            outcome: outcome(b"partial"),
        },
        TrackingReport::Routed,
    ];
    let req = RpcBroadcastWaitTransactionRequest {
        signed_transaction: signed_tx(),
        rpc_broadcast_wait_type: RpcBroadcastWait::Final,
    };
    let r = send_tx(&req, SubmitVerdict::Accepted, &config(), &script);
    match r {
        Err(RpcTransactionError::RequestRouted { transaction_hash }) => {
            assert_eq!(transaction_hash.bytes, hash_bytes());
        }
        _ => panic!("routing must end the wait with RequestRouted"),
    }
}

#[test]
fn waiter_milestone_never_regresses() {
    // the service repeats an older milestone after a newer one; the waiter
    // completes at the requested level all the same
    let script = vec![
        TrackingReport::Progress {
            milestone: RpcBroadcastWait::Executed,
            outcome: outcome(b"ahead"),
        },
        TrackingReport::Progress {
            milestone: RpcBroadcastWait::Inclusion,
            outcome: outcome(b"stale"),
        },
        TrackingReport::Progress {
            milestone: RpcBroadcastWait::ExecutedFinal,
            outcome: outcome(b"done"),
        },
    ];
    let r = run_waiter(RpcBroadcastWait::ExecutedFinal, &hash(), &config(), &script);
    match r {
        WaitOutcome::Completed { outcome } => assert_eq!(outcome.payload, b"done".to_vec()),
        _ => panic!("expected completion"),
    }
}

#[test]
fn waiter_completes_early_once_level_reached() {
    // a report beyond the requested level completes at once, skipping states
    let script = vec![TrackingReport::Progress {
        milestone: RpcBroadcastWait::Final,
        outcome: outcome(b"skipped-ahead"),
    }];
    let r = run_waiter(RpcBroadcastWait::Inclusion, &hash(), &config(), &script);
    match r {
        WaitOutcome::Completed { outcome } => {
            assert_eq!(outcome.payload, b"skipped-ahead".to_vec());
        }
        _ => panic!("expected completion"),
    }
}

#[test]
fn status_query_unknown_hash_echoes_it_back() {
    let script = vec![TrackingReport::NeverReceived];
    let req = RpcTransactionStatusCommonRequest {
        transaction_info: TransactionInfo::TransactionId {
            hash: hash(),
            account_id: AccountId { bytes: b"alice.near".to_vec() },
        },
    };
    let r = tx_status(&req, RpcBroadcastWait::Executed, &config(), &script);
    match r {
        Err(RpcTransactionError::UnknownTransaction { requested_transaction_hash }) => {
            assert_eq!(requested_transaction_hash.bytes, hash_bytes());
        }
        _ => panic!("a never-received hash must surface as UnknownTransaction"),
    }
}

#[test]
fn status_query_resolves_to_outcome() {
    let script = vec![
        TrackingReport::NotYetVisible,
        TrackingReport::Progress {
            milestone: RpcBroadcastWait::Executed,
            outcome: outcome(b"status"),
        },
    ];
    let req = RpcTransactionStatusCommonRequest {
        transaction_info: TransactionInfo::Transaction(signed_tx()),
    };
    let r = tx_status(&req, RpcBroadcastWait::Executed, &config(), &script).unwrap();
    assert_eq!(r.final_execution_outcome.payload, b"status".to_vec());
}

#[test]
fn untracked_shard_yields_error_and_no_hash() {
    let req = RpcBroadcastWaitTransactionRequest {
        signed_transaction: signed_tx(),
        rpc_broadcast_wait_type: RpcBroadcastWait::Inclusion,
    };
    let r = send_tx(&req, SubmitVerdict::NotTracked, &config(), &Vec::new());
    assert!(matches!(r, Err(RpcTransactionError::DoesNotTrackShard)));
}

#[test]
fn never_received_during_send_is_unknown_transaction() {
    let script = vec![TrackingReport::NotYetVisible, TrackingReport::NeverReceived];
    let req = RpcBroadcastWaitTransactionRequest {
        signed_transaction: signed_tx(),
        rpc_broadcast_wait_type: RpcBroadcastWait::Inclusion,
    };
    let r = send_tx(&req, SubmitVerdict::Accepted, &config(), &script);
    assert!(matches!(
        r,
        Err(RpcTransactionError::UnknownTransaction { .. })
    ));
}

#[test]
fn budget_is_per_level_configuration() {
    // a script that resolves at poll five completes under a budget of six
    // but times out under a budget of four
    let mut script = Vec::new();
    for _ in 0..4 {
        script.push(TrackingReport::NotYetVisible);
    }
    script.push(TrackingReport::Progress {
        milestone: RpcBroadcastWait::Inclusion,
        outcome: outcome(b"late"),
    });
    let generous = WaitConfig {
        inclusion_polls: 6,
        inclusion_final_polls: 6,
        executed_polls: 6,
        executed_final_polls: 6,
        final_polls: 6,
    };
    let stingy = WaitConfig {
        inclusion_polls: 4,
        inclusion_final_polls: 4,
        executed_polls: 4,
        executed_final_polls: 4,
        final_polls: 4,
    };
    let r = run_waiter(RpcBroadcastWait::Inclusion, &hash(), &generous, &script);
    assert!(matches!(r, WaitOutcome::Completed { .. }));
    let r = run_waiter(RpcBroadcastWait::Inclusion, &hash(), &stingy, &script);
    match r {
        WaitOutcome::Failed { error } => {
            assert!(matches!(error, RpcTransactionError::TimeoutError));
        }
        _ => panic!("the stingy budget must lapse first"),
    }
}

#[test]
fn level_order_is_strict() {
    let levels = vec![
        RpcBroadcastWait::NoWait,
        RpcBroadcastWait::Inclusion,
        RpcBroadcastWait::InclusionFinal,
        RpcBroadcastWait::Executed,
        RpcBroadcastWait::ExecutedFinal,
        RpcBroadcastWait::Final,
    ];
    for (i, a) in levels.iter().enumerate() {
        assert_eq!(a.rank_of() as usize, i);
        for b in levels.iter() {
            assert_eq!(a.at_least(*b), a.rank_of() >= b.rank_of());
        }
    }
}

#[test]
fn crypto_hash_accepts_exactly_thirty_two_bytes() {
    assert!(CryptoHash::new(hash_bytes()).is_some());
    assert!(CryptoHash::new(b"short".to_vec()).is_none());
    let h = CryptoHash::new(hash_bytes()).unwrap();
    assert_eq!(h.duplicate().bytes, hash_bytes());
}

#[test]
fn wait_level_wire_names() {
    let pairs: Vec<(RpcBroadcastWait, &str)> = vec![
        (RpcBroadcastWait::NoWait, "NONE"),
        (RpcBroadcastWait::Inclusion, "INCLUDED"),
        (RpcBroadcastWait::InclusionFinal, "INCLUDED_FINAL"),
        (RpcBroadcastWait::Executed, "EXECUTED"),
        (RpcBroadcastWait::ExecutedFinal, "EXECUTED_FINAL"),
        (RpcBroadcastWait::Final, "FINAL"),
    ];
    for (level, name) in pairs {
        let tag = level.wire_tag();
        assert_eq!(String::from_utf8(tag.clone()).unwrap(), name);
        assert_eq!(parse_wire_tag(&tag), Some(level));
    }
    assert_eq!(parse_wire_tag(&b"INCLUDED ".to_vec()), None);
    assert_eq!(parse_wire_tag(&b"included".to_vec()), None);
    assert_eq!(parse_wire_tag(&b"".to_vec()), None);
}

#[test]
fn parked_waiters_are_bounded() {
    assert!(admit_waiter(0, 8).is_ok());
    assert!(admit_waiter(7, 8).is_ok());
    match admit_waiter(8, 8) {
        Err(RpcTransactionError::InternalError { debug_info }) => {
            assert_eq!(debug_info, b"too many parked waiters".to_vec());
        }
        _ => panic!("a wait past the bound must be refused, not stalled"),
    }
}
