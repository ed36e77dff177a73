//! The request pipeline: broadcast, wait, assemble. The network
//! submission service and the outcome-tracking service are external
//! collaborators; their answers come in as values — a submission verdict,
//! a script of tracking reports — and everything decided on them here is
//! verified.

use crate::data::{
    CryptoHash, RpcBroadcastTransactionRequest, RpcBroadcastTxSyncResponse,
    RpcBroadcastWaitResponse, RpcBroadcastWaitTransactionRequest, RpcTransactionResponse,
    RpcTransactionStatusCommonRequest,
};
use crate::errors::{ErrorView, InvalidTxError, RpcTransactionError};
use crate::wait_level::RpcBroadcastWait;
use crate::waiter::{
    report_views, run_waiter, wait_spec, OutcomeView, TrackingReport, WaitConfig, WaitOutcome,
};
use vstd::prelude::*;

verus! {

/// The verdict of the external network-submission service on one signed
/// transaction: taken in, refused with a validation context, or beyond
/// judgement because this node does not track the account's shard.
#[derive(Debug, Clone, Copy, PartialEq, Eq, Structural)]
pub enum SubmitVerdict {
    Accepted,
    Invalid { context: InvalidTxError },
    NotTracked,
}

/// Submits fire-and-forget: the hash comes back at once, no waiting,
/// whatever execution later does. A refused transaction or an untracked
/// shard surfaces as the matching failure, with no hash returned.
pub fn broadcast_tx_async(req: &RpcBroadcastTransactionRequest, verdict: SubmitVerdict) -> (r:
    Result<RpcBroadcastTxSyncResponse, RpcTransactionError>)
    ensures
        verdict is Accepted ==> (r matches Ok(resp) && resp.transaction_hash@
            == req.signed_transaction.hash@),
        verdict matches SubmitVerdict::Invalid { context } ==> r matches Err(e) && e@
            == (ErrorView::InvalidTransaction { context }),
        verdict is NotTracked ==> (r matches Err(e) && e@ == ErrorView::DoesNotTrackShard),
{
    match verdict {
        SubmitVerdict::Accepted => Ok(
            RpcBroadcastTxSyncResponse { transaction_hash: req.signed_transaction.hash.duplicate() },
        ),
        SubmitVerdict::Invalid { context } => Err(
            RpcTransactionError::InvalidTransaction { context },
        ),
        SubmitVerdict::NotTracked => Err(RpcTransactionError::DoesNotTrackShard),
    }
}

/// Builds the response once broadcast and wait are done: the hash alone
/// for `NoWait` — the waiter is never consulted there — and otherwise the
/// hash beside the outcome the wait produced, or the failure that ended
/// it. A non-failure response at a level beyond `NoWait` always carries
/// an outcome.
pub fn assemble_response(
    wait: RpcBroadcastWait,
    hash: CryptoHash,
    waited: Option<WaitOutcome>,
) -> (r: Result<RpcBroadcastWaitResponse, RpcTransactionError>)
    requires
        (wait.rank() == 0) <==> (waited is None),
    ensures
        wait.rank() == 0 ==> (r matches Ok(resp) && resp.transaction_hash@ == hash@
            && resp.final_execution_outcome is None),
        waited matches Some(w) ==> (w@ matches OutcomeView::Completed { outcome }
            ==> r matches Ok(resp) && resp.transaction_hash@ == hash@
            && (resp.final_execution_outcome matches Some(o) && o@ == outcome)),
        waited matches Some(w) ==> (w@ matches OutcomeView::Failed { error }
            ==> r matches Err(e) && e@ == error),
        r matches Ok(resp) ==> ((resp.final_execution_outcome is Some) <==> wait.rank() > 0),
{
    match waited {
        Option::None => Ok(
            RpcBroadcastWaitResponse { transaction_hash: hash, final_execution_outcome: None },
        ),
        Option::Some(WaitOutcome::Completed { outcome }) => Ok(
            RpcBroadcastWaitResponse {
                transaction_hash: hash,
                final_execution_outcome: Some(outcome),
            },
        ),
        Option::Some(WaitOutcome::Failed { error }) => Err(error),
    }
}

/// Submits a transaction and waits as far as the request asks: not at
/// all for `NoWait`, where the response carries the hash alone however
/// execution proceeds; otherwise to the milestone the wait level names,
/// the wait resolving exactly as `wait_spec` says on the tracking
/// service's reports.
pub fn send_tx(
    req: &RpcBroadcastWaitTransactionRequest,
    verdict: SubmitVerdict,
    config: &WaitConfig,
    script: &Vec<TrackingReport>,
) -> (r: Result<RpcBroadcastWaitResponse, RpcTransactionError>)
    ensures
        verdict matches SubmitVerdict::Invalid { context } ==> r matches Err(e) && e@
            == (ErrorView::InvalidTransaction { context }),
        verdict is NotTracked ==> (r matches Err(e) && e@ == ErrorView::DoesNotTrackShard),
        (verdict is Accepted && req.rpc_broadcast_wait_type.rank() == 0) ==> (r matches Ok(resp)
            && resp.transaction_hash@ == req.signed_transaction.hash@
            && resp.final_execution_outcome is None),
        (verdict is Accepted && req.rpc_broadcast_wait_type.rank() > 0) ==> (match wait_spec(
            req.rpc_broadcast_wait_type,
            req.signed_transaction.hash@,
            RpcBroadcastWait::NoWait,
            report_views(script@),
            0,
            config.spec_budget_for(req.rpc_broadcast_wait_type) as nat,
        ) {
            OutcomeView::Completed { outcome } => r matches Ok(resp) && resp.transaction_hash@
                == req.signed_transaction.hash@ && (resp.final_execution_outcome matches Some(o)
                && o@ == outcome),
            OutcomeView::Failed { error } => r matches Err(e) && e@ == error,
        }),
        r matches Ok(resp) ==> ((resp.final_execution_outcome is Some)
            <==> req.rpc_broadcast_wait_type.rank() > 0),
{
    match verdict {
        SubmitVerdict::Invalid { context } => Err(
            RpcTransactionError::InvalidTransaction { context },
        ),
        SubmitVerdict::NotTracked => Err(RpcTransactionError::DoesNotTrackShard),
        SubmitVerdict::Accepted => {
            let wait = req.rpc_broadcast_wait_type;
            let hash = req.signed_transaction.hash.duplicate();
            if wait.rank_of() == 0 {
                assemble_response(wait, hash, None)
            } else {
                let outcome = run_waiter(wait, &req.signed_transaction.hash, config, script);
                assemble_response(wait, hash, Some(outcome))
            }
        },
    }
}

/// Answers a status query: waits on the tracking service up to
/// `wait_until`, handing back the execution outcome once resolvable and
/// the failure otherwise — in particular `UnknownTransaction`, echoing
/// the requested hash, where the service asserts the hash was never
/// received.
pub fn tx_status(
    req: &RpcTransactionStatusCommonRequest,
    wait_until: RpcBroadcastWait,
    config: &WaitConfig,
    script: &Vec<TrackingReport>,
) -> (r: Result<RpcTransactionResponse, RpcTransactionError>)
    requires
        wait_until.rank() > 0,
    ensures
        match wait_spec(
            wait_until,
            req.transaction_info.spec_hash(),
            RpcBroadcastWait::NoWait,
            report_views(script@),
            0,
            config.spec_budget_for(wait_until) as nat,
        ) {
            OutcomeView::Completed { outcome } => r matches Ok(resp)
                && resp.final_execution_outcome@ == outcome,
            OutcomeView::Failed { error } => r matches Err(e) && e@ == error,
        },
{
    let hash = req.transaction_info.hash();
    let outcome = run_waiter(wait_until, hash, config, script);
    match outcome {
        WaitOutcome::Completed { outcome } => Ok(
            RpcTransactionResponse { final_execution_outcome: outcome },
        ),
        WaitOutcome::Failed { error } => Err(error),
    }
}

} // verus!
