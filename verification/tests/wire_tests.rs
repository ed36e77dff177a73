use rpc_transactions::data::CryptoHash;
use rpc_transactions::errors::{InvalidTxError, RpcTransactionError};
use rpc_transactions::translate::RpcError;
use rpc_transactions::wire::{encode_error, parse_error};

fn hash_bytes() -> Vec<u8> {
    let mut v = Vec::new();
    for i in 0..32u8 {
        v.push(i);
    }
    v
}

fn hash_hex() -> String {
    let mut s = String::new();
    for i in 0..32u8 {
        s.push_str(&format!("{:02x}", i));
    }
    s
}

#[test]
fn encode_does_not_track_shard() {
    let e = RpcTransactionError::DoesNotTrackShard;
    let bytes = encode_error(&e);
    assert_eq!(
        String::from_utf8(bytes).unwrap(),
        "{\"name\":\"DOES_NOT_TRACK_SHARD\"}"
    );
}

#[test]
fn encode_timeout() {
    let e = RpcTransactionError::TimeoutError;
    let bytes = encode_error(&e);
    assert_eq!(String::from_utf8(bytes).unwrap(), "{\"name\":\"TIMEOUT_ERROR\"}");
}

#[test]
fn encode_invalid_transaction_omits_context() {
    let e = RpcTransactionError::InvalidTransaction {
        context: InvalidTxError::InvalidNonce { tx_nonce: 7, ak_nonce: 9 },
    };
    let bytes = encode_error(&e);
    assert_eq!(
        String::from_utf8(bytes).unwrap(),
        "{\"name\":\"INVALID_TRANSACTION\",\"info\":{}}"
    );
}

#[test]
fn encode_request_routed_carries_hash() {
    let e = RpcTransactionError::RequestRouted {
        transaction_hash: CryptoHash { bytes: hash_bytes() },
    };
    let bytes = encode_error(&e);
    let expected = format!(
        "{{\"name\":\"REQUEST_ROUTED\",\"info\":{{\"transaction_hash\":\"{}\"}}}}",
        hash_hex()
    );
    assert_eq!(String::from_utf8(bytes).unwrap(), expected);
}

#[test]
fn encode_internal_error_escapes_debug_info() {
    let e = RpcTransactionError::InternalError {
        debug_info: b"a \"quoted\" \\ line\nend".to_vec(),
    };
    let bytes = encode_error(&e);
    assert_eq!(
        String::from_utf8(bytes).unwrap(),
        "{\"name\":\"INTERNAL_ERROR\",\"info\":{\"debug_info\":\"a \\\"quoted\\\" \\\\ line\\u000aend\"}}"
    );
}

#[test]
fn envelopes_are_valid_json_with_name_and_info() {
    let cases: Vec<RpcTransactionError> = vec![
        RpcTransactionError::InvalidTransaction { context: InvalidTxError::Expired },
        RpcTransactionError::DoesNotTrackShard,
        RpcTransactionError::RequestRouted {
            transaction_hash: CryptoHash { bytes: hash_bytes() },
        },
        RpcTransactionError::UnknownTransaction {
            requested_transaction_hash: CryptoHash { bytes: hash_bytes() },
        },
        RpcTransactionError::InternalError { debug_info: b"busy".to_vec() },
        RpcTransactionError::TimeoutError,
    ];
    let tags = vec![
        "INVALID_TRANSACTION",
        "DOES_NOT_TRACK_SHARD",
        "REQUEST_ROUTED",
        "UNKNOWN_TRANSACTION",
        "INTERNAL_ERROR",
        "TIMEOUT_ERROR",
    ];
    for (e, tag) in cases.iter().zip(tags.iter()) {
        let bytes = encode_error(e);
        let v: serde_json::Value = serde_json::from_slice(&bytes).unwrap();
        assert_eq!(v.get("name").unwrap().as_str().unwrap(), *tag);
    }
}

#[test]
fn round_trip_each_variant() {
    let cases: Vec<RpcTransactionError> = vec![
        RpcTransactionError::DoesNotTrackShard,
        RpcTransactionError::TimeoutError,
        RpcTransactionError::RequestRouted {
            transaction_hash: CryptoHash { bytes: hash_bytes() },
        },
        RpcTransactionError::UnknownTransaction {
            requested_transaction_hash: CryptoHash { bytes: hash_bytes() },
        },
        RpcTransactionError::InternalError {
            debug_info: b"tab\t quote \" backslash \\".to_vec(),
        },
    ];
    for e in cases.iter() {
        let bytes = encode_error(e);
        let back = parse_error(&bytes).unwrap();
        let again = encode_error(&back);
        assert_eq!(bytes, again);
        match (e, &back) {
            (RpcTransactionError::DoesNotTrackShard, RpcTransactionError::DoesNotTrackShard) => {}
            (RpcTransactionError::TimeoutError, RpcTransactionError::TimeoutError) => {}
            (
                RpcTransactionError::RequestRouted { transaction_hash: a },
                RpcTransactionError::RequestRouted { transaction_hash: b },
            ) => assert_eq!(a.bytes, b.bytes),
            (
                RpcTransactionError::UnknownTransaction { requested_transaction_hash: a },
                RpcTransactionError::UnknownTransaction { requested_transaction_hash: b },
            ) => assert_eq!(a.bytes, b.bytes),
            (
                RpcTransactionError::InternalError { debug_info: a },
                RpcTransactionError::InternalError { debug_info: b },
            ) => assert_eq!(a, b),
            _ => panic!("variant changed across the wire"),
        }
    }
}

#[test]
fn round_trip_invalid_transaction_loses_only_context() {
    let e = RpcTransactionError::InvalidTransaction {
        context: InvalidTxError::InvalidNonce { tx_nonce: 1, ak_nonce: 2 },
    };
    let bytes = encode_error(&e);
    let back = parse_error(&bytes).unwrap();
    match back {
        RpcTransactionError::InvalidTransaction { context } => {
            assert_eq!(context, InvalidTxError::Omitted);
        }
        _ => panic!("variant changed across the wire"),
    }
}

#[test]
fn parse_rejects_non_canonical_input() {
    assert!(parse_error(&b"".to_vec()).is_none());
    assert!(parse_error(&b"{\"name\":\"NO_SUCH_TAG\"}".to_vec()).is_none());
    assert!(parse_error(&b"{\"name\":\"TIMEOUT_ERROR\"} ".to_vec()).is_none());
    // hash too short
    assert!(parse_error(
        &b"{\"name\":\"REQUEST_ROUTED\",\"info\":{\"transaction_hash\":\"abcd\"}}".to_vec()
    )
    .is_none());
    // uppercase hex is not canonical
    let mut routed = String::from("{\"name\":\"REQUEST_ROUTED\",\"info\":{\"transaction_hash\":\"");
    for _ in 0..32 {
        routed.push_str("AB");
    }
    routed.push_str("\"}}");
    assert!(parse_error(&routed.into_bytes()).is_none());
    // a raw quote inside the debug string is not canonical
    assert!(parse_error(
        &b"{\"name\":\"INTERNAL_ERROR\",\"info\":{\"debug_info\":\"a\"b\"}}".to_vec()
    )
    .is_none());
    // a \u escape for a printable byte is not canonical either
    assert!(parse_error(
        &b"{\"name\":\"INTERNAL_ERROR\",\"info\":{\"debug_info\":\"\\u0041\"}}".to_vec()
    )
    .is_none());
}

#[test]
fn message_rendering() {
    let e = RpcTransactionError::TimeoutError;
    assert_eq!(String::from_utf8(e.message_bytes()).unwrap(), "Timeout");
    let e = RpcTransactionError::DoesNotTrackShard;
    assert_eq!(
        String::from_utf8(e.message_bytes()).unwrap(),
        "Node doesn't track this shard. Cannot determine whether the transaction is valid"
    );
    let e = RpcTransactionError::RequestRouted {
        transaction_hash: CryptoHash { bytes: hash_bytes() },
    };
    assert_eq!(
        String::from_utf8(e.message_bytes()).unwrap(),
        format!("Transaction with hash {} was routed", hash_hex())
    );
    let e = RpcTransactionError::UnknownTransaction {
        requested_transaction_hash: CryptoHash { bytes: hash_bytes() },
    };
    assert_eq!(
        String::from_utf8(e.message_bytes()).unwrap(),
        format!("Transaction {} doesn't exist", hash_hex())
    );
    let e = RpcTransactionError::InternalError { debug_info: b"queue full".to_vec() };
    assert_eq!(
        String::from_utf8(e.message_bytes()).unwrap(),
        "The node reached its limits. Try again later. More details: queue full"
    );
    let e = RpcTransactionError::InvalidTransaction {
        context: InvalidTxError::InvalidNonce { tx_nonce: 12, ak_nonce: 340 },
    };
    assert_eq!(
        String::from_utf8(e.message_bytes()).unwrap(),
        "An error happened during transaction execution: InvalidNonce { tx_nonce: 12, ak_nonce: 340 }"
    );
}

#[test]
fn translate_invalid_transaction_builds_legacy_payload() {
    let e = RpcTransactionError::InvalidTransaction {
        context: InvalidTxError::InvalidNonce { tx_nonce: 12, ak_nonce: 340 },
    };
    let r = RpcError::from_transaction_error(&e);
    assert_eq!(
        String::from_utf8(r.data).unwrap(),
        "{\"TxExecutionError\":{\"InvalidTxError\":{\"InvalidNonce\":{\"tx_nonce\":12,\"ak_nonce\":340}}}}"
    );
    assert_eq!(
        String::from_utf8(r.envelope).unwrap(),
        "{\"name\":\"INVALID_TRANSACTION\",\"info\":{}}"
    );
}

#[test]
fn translate_other_errors_render_as_json_string() {
    let e = RpcTransactionError::TimeoutError;
    let r = RpcError::from_transaction_error(&e);
    assert_eq!(String::from_utf8(r.data).unwrap(), "\"Timeout\"");
    assert_eq!(String::from_utf8(r.envelope).unwrap(), "{\"name\":\"TIMEOUT_ERROR\"}");
    // both halves stay valid JSON
    let e = RpcTransactionError::InternalError { debug_info: b"say \"hi\"".to_vec() };
    let r = RpcError::from_transaction_error(&e);
    let v: serde_json::Value = serde_json::from_slice(&r.data).unwrap();
    assert_eq!(
        v.as_str().unwrap(),
        "The node reached its limits. Try again later. More details: say \"hi\""
    );
}
