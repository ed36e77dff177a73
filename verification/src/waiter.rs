//! The outcome waiter: a state machine that observes the tracking
//! service's reports for one transaction until the requested milestone is
//! reached, a terminal failure arrives, or the wait budget lapses.
//!
//! The relationship with the tracking service is explicit message
//! passing: each poll yields one `TrackingReport`, and the machine is
//! driven by the sequence of reports, so a scripted sequence exercises it
//! completely.

use crate::data::{CryptoHash, ExecutionOutcome};
use crate::errors::{ErrorView, RpcTransactionError};
use crate::text::{append_ascii, ascii_bytes};
use crate::wait_level::RpcBroadcastWait;
use vstd::prelude::*;

verus! {

/// One answer from the outcome-tracking service to one poll.
#[derive(Debug)]
pub enum TrackingReport {
    /// The service has nothing on the hash yet; keep waiting.
    NotYetVisible,
    /// The transaction has progressed to `milestone`; `outcome` is the
    /// execution record as of that milestone.
    Progress { milestone: RpcBroadcastWait, outcome: ExecutionOutcome },
    /// The service asserts the hash was never received at all — not
    /// merely not yet visible.
    NeverReceived,
    /// The transaction was routed to another node, which must resolve it.
    Routed,
}

/// The mathematical value of a `TrackingReport`.
pub enum ReportView {
    NotYetVisible,
    Progress { milestone: RpcBroadcastWait, outcome: Seq<u8> },
    NeverReceived,
    Routed,
}

impl View for TrackingReport {
    type V = ReportView;

    open spec fn view(&self) -> ReportView {
        match self {
            TrackingReport::NotYetVisible => ReportView::NotYetVisible,
            TrackingReport::Progress { milestone, outcome } => ReportView::Progress {
                milestone: *milestone,
                outcome: outcome@,
            },
            TrackingReport::NeverReceived => ReportView::NeverReceived,
            TrackingReport::Routed => ReportView::Routed,
        }
    }
}

/// The views of a script of reports, in order.
pub open spec fn report_views(script: Seq<TrackingReport>) -> Seq<ReportView> {
    Seq::new(script.len(), |i: int| script[i]@)
}

/// How the wait resolved: the outcome record once the requested milestone
/// was reached, or the failure that ended the wait.
#[derive(Debug)]
pub enum WaitOutcome {
    Completed { outcome: ExecutionOutcome },
    Failed { error: RpcTransactionError },
}

/// The mathematical value of a `WaitOutcome`.
pub enum OutcomeView {
    Completed { outcome: Seq<u8> },
    Failed { error: ErrorView },
}

impl View for WaitOutcome {
    type V = OutcomeView;

    open spec fn view(&self) -> OutcomeView {
        match self {
            WaitOutcome::Completed { outcome } => OutcomeView::Completed { outcome: outcome@ },
            WaitOutcome::Failed { error } => OutcomeView::Failed { error: error@ },
        }
    }
}

/// The wait budget of each level, in polls. Configuration: the caller
/// chooses the bounds, nothing is built in.
#[derive(Debug, Clone, Copy, PartialEq, Eq, Structural)]
pub struct WaitConfig {
    pub inclusion_polls: u64,
    pub inclusion_final_polls: u64,
    pub executed_polls: u64,
    pub executed_final_polls: u64,
    pub final_polls: u64,
}

impl WaitConfig {
    /// The poll budget granted to a wait at `level`.
    pub open spec fn spec_budget_for(self, level: RpcBroadcastWait) -> u64 {
        match level {
            RpcBroadcastWait::NoWait => 0,
            RpcBroadcastWait::Inclusion => self.inclusion_polls,
            RpcBroadcastWait::InclusionFinal => self.inclusion_final_polls,
            RpcBroadcastWait::Executed => self.executed_polls,
            RpcBroadcastWait::ExecutedFinal => self.executed_final_polls,
            RpcBroadcastWait::Final => self.final_polls,
        }
    }

    /// Executable form of `spec_budget_for`.
    pub fn budget_for(&self, level: RpcBroadcastWait) -> (r: u64)
        ensures
            r == self.spec_budget_for(level),
    {
        match level {
            RpcBroadcastWait::NoWait => 0,
            RpcBroadcastWait::Inclusion => self.inclusion_polls,
            RpcBroadcastWait::InclusionFinal => self.inclusion_final_polls,
            RpcBroadcastWait::Executed => self.executed_polls,
            RpcBroadcastWait::ExecutedFinal => self.executed_final_polls,
            RpcBroadcastWait::Final => self.final_polls,
        }
    }
}

/// The report the waiter sees at poll `i`: the script's entry while one
/// is left, and silence afterwards.
pub open spec fn report_at(reports: Seq<ReportView>, i: nat) -> ReportView {
    if i < reports.len() {
        reports[i as int]
    } else {
        ReportView::NotYetVisible
    }
}

/// The milestone the waiter holds after one report: progress advances it
/// to the further of the two, everything else leaves it alone. It never
/// goes backwards, even if the service repeats an older milestone.
pub open spec fn advance(reached: RpcBroadcastWait, rep: ReportView) -> RpcBroadcastWait {
    match rep {
        ReportView::Progress { milestone, .. } => if milestone.rank() > reached.rank() {
            milestone
        } else {
            reached
        },
        _ => reached,
    }
}

/// The milestone held after the reports at polls `i, i+1, ..., i+n-1`.
pub open spec fn reached_after(
    reached: RpcBroadcastWait,
    reports: Seq<ReportView>,
    i: nat,
    n: nat,
) -> RpcBroadcastWait
    decreases n,
{
    if n == 0 {
        reached
    } else {
        reached_after(advance(reached, report_at(reports, i)), reports, (i + 1) as nat, (n - 1) as nat)
    }
}

/// How the wait resolves from milestone `reached` at poll `i` with
/// `budget` polls left: the first report that routes, denies, or carries
/// the requested milestone decides; a spent budget is a timeout.
pub open spec fn wait_spec(
    requested: RpcBroadcastWait,
    hash: Seq<u8>,
    reached: RpcBroadcastWait,
    reports: Seq<ReportView>,
    i: nat,
    budget: nat,
) -> OutcomeView
    decreases budget,
{
    if budget == 0 {
        OutcomeView::Failed { error: ErrorView::TimeoutError }
    } else {
        match report_at(reports, i) {
            ReportView::Routed => OutcomeView::Failed {
                error: ErrorView::RequestRouted { transaction_hash: hash },
            },
            ReportView::NeverReceived => OutcomeView::Failed {
                error: ErrorView::UnknownTransaction { requested_transaction_hash: hash },
            },
            ReportView::NotYetVisible => wait_spec(
                requested,
                hash,
                reached,
                reports,
                (i + 1) as nat,
                (budget - 1) as nat,
            ),
            ReportView::Progress { milestone, outcome } => {
                let next = advance(reached, ReportView::Progress { milestone, outcome });
                if next.rank() >= requested.rank() {
                    OutcomeView::Completed { outcome }
                } else {
                    wait_spec(requested, hash, next, reports, (i + 1) as nat, (budget - 1) as nat)
                }
            },
        }
    }
}

/// Runs the wait to resolution against a script of tracking reports:
/// polls the script in order, advancing through milestones, until the
/// requested level is reached, a terminal failure arrives, or the budget
/// is spent.
pub fn run_waiter(
    requested: RpcBroadcastWait,
    hash: &CryptoHash,
    config: &WaitConfig,
    script: &Vec<TrackingReport>,
) -> (r: WaitOutcome)
    requires
        requested.rank() > 0,
    ensures
        r@ == wait_spec(
            requested,
            hash@,
            RpcBroadcastWait::NoWait,
            report_views(script@),
            0,
            config.spec_budget_for(requested) as nat,
        ),
{
    let ghost reports = report_views(script@);
    let budget: u64 = config.budget_for(requested);
    let ghost goal = wait_spec(requested, hash@, RpcBroadcastWait::NoWait, reports, 0, budget as nat);
    let mut reached: RpcBroadcastWait = RpcBroadcastWait::NoWait;
    let mut i: u64 = 0;
    while i < budget
        invariant
            requested.rank() > 0,
            i <= budget,
            budget == config.spec_budget_for(requested),
            reports == report_views(script@),
            goal == wait_spec(
                requested,
                hash@,
                RpcBroadcastWait::NoWait,
                reports,
                0,
                budget as nat,
            ),
            goal == wait_spec(requested, hash@, reached, reports, i as nat, (budget - i) as nat),
        decreases budget - i,
    {
        let n_script: usize = script.len();
        if i < (n_script as u64) {
            let idx: usize = i as usize;
            proof {
                assert(idx as int == i as int);
                assert(report_at(reports, i as nat) == script@[i as int]@);
            }
            match &script[idx] {
                TrackingReport::Routed => {
                    proof {
                        assert(report_at(reports, i as nat) is Routed);
                    }
                    return WaitOutcome::Failed {
                        error: RpcTransactionError::RequestRouted {
                            transaction_hash: hash.duplicate(),
                        },
                    };
                },
                TrackingReport::NeverReceived => {
                    proof {
                        assert(report_at(reports, i as nat) is NeverReceived);
                    }
                    return WaitOutcome::Failed {
                        error: RpcTransactionError::UnknownTransaction {
                            requested_transaction_hash: hash.duplicate(),
                        },
                    };
                },
                TrackingReport::NotYetVisible => {},
                TrackingReport::Progress { milestone, outcome } => {
                    let next = reached.max_with(*milestone);
                    proof {
                        let rep = report_at(reports, i as nat);
                        assert(rep matches ReportView::Progress { milestone: m, .. }
                            && m == *milestone);
                        assert(next == advance(reached, rep));
                    }
                    if next.at_least(requested) {
                        return WaitOutcome::Completed { outcome: outcome.duplicate() };
                    }
                    reached = next;
                },
            }
        }
        i = i + 1;
    }
    WaitOutcome::Failed { error: RpcTransactionError::TimeoutError }
}

/// Admission control for new waits: the number of concurrently parked
/// waiters is bounded, and past the bound a new wait request is refused
/// with `InternalError` — never accepted and left to stall.
pub fn admit_waiter(parked: u64, bound: u64) -> (r: Result<(), RpcTransactionError>)
    ensures
        parked < bound <==> r is Ok,
        r matches Err(e) ==> e@ == (ErrorView::InternalError {
            debug_info: ascii_bytes("too many parked waiters"@),
        }),
{
    if parked < bound {
        Ok(())
    } else {
        proof {
            reveal_strlit("too many parked waiters");
        }
        let mut d: Vec<u8> = Vec::new();
        append_ascii(&mut d, "too many parked waiters");
        Err(RpcTransactionError::InternalError { debug_info: d })
    }
}

/// One observation never lowers the held milestone.
pub proof fn lemma_advance_lb(reached: RpcBroadcastWait, rep: ReportView)
    ensures
        advance(reached, rep).rank() >= reached.rank(),
{
}

/// Observing reports never lowers the held milestone below where it was.
pub proof fn lemma_reached_after_lb(
    reached: RpcBroadcastWait,
    reports: Seq<ReportView>,
    i: nat,
    n: nat,
)
    ensures
        reached_after(reached, reports, i, n).rank() >= reached.rank(),
    decreases n,
{
    if n == 0 {
    } else {
        lemma_advance_lb(reached, report_at(reports, i));
        lemma_reached_after_lb(
            advance(reached, report_at(reports, i)),
            reports,
            (i + 1) as nat,
            (n - 1) as nat,
        );
    }
}

/// Observing a run of reports in two stretches is observing it in one.
pub proof fn lemma_reached_after_split(
    reached: RpcBroadcastWait,
    reports: Seq<ReportView>,
    i: nat,
    n1: nat,
    n2: nat,
)
    requires
        n1 <= n2,
    ensures
        reached_after(reached, reports, i, n2) == reached_after(
            reached_after(reached, reports, i, n1),
            reports,
            (i + n1) as nat,
            (n2 - n1) as nat,
        ),
    decreases n1,
{
    if n1 == 0 {
    } else {
        lemma_reached_after_split(
            advance(reached, report_at(reports, i)),
            reports,
            (i + 1) as nat,
            (n1 - 1) as nat,
            (n2 - 1) as nat,
        );
    }
}

/// The waiter's milestone moves only forward: after more polls it is
/// never below where fewer polls left it. In particular it never holds a
/// milestone before every lower milestone is behind it, the levels being
/// totally ordered by rank.
pub proof fn lemma_milestone_monotonic(
    reached: RpcBroadcastWait,
    reports: Seq<ReportView>,
    i: nat,
    n1: nat,
    n2: nat,
)
    requires
        n1 <= n2,
    ensures
        reached_after(reached, reports, i, n1).rank() <= reached_after(
            reached,
            reports,
            i,
            n2,
        ).rank(),
{
    lemma_reached_after_split(reached, reports, i, n1, n2);
    lemma_reached_after_lb(
        reached_after(reached, reports, i, n1),
        reports,
        (i + n1) as nat,
        (n2 - n1) as nat,
    );
}

/// Routing supersedes everything: if the tracking service reports the
/// transaction routed at a poll the waiter reaches — none of the earlier
/// reports having denied the hash or completed the wait — the wait fails
/// with `RequestRouted`, however much milestone progress was already made.
pub proof fn lemma_routing_supersedes(
    requested: RpcBroadcastWait,
    hash: Seq<u8>,
    reached: RpcBroadcastWait,
    reports: Seq<ReportView>,
    i: nat,
    budget: nat,
    j: int,
)
    requires
        i <= j < i + budget,
        0 <= j < reports.len(),
        reports[j] is Routed,
        forall|l: int|
            i <= l < j ==> (#[trigger] reports[l] is NotYetVisible || (reports[l] is Progress
                && reached_after(reached, reports, i, (l + 1 - i) as nat).rank()
                < requested.rank())),
    ensures
        wait_spec(requested, hash, reached, reports, i, budget) == (OutcomeView::Failed {
            error: ErrorView::RequestRouted { transaction_hash: hash },
        }),
    decreases j - i,
{
    if i == j {
        assert(report_at(reports, i) is Routed);
    } else {
        let rep = report_at(reports, i);
        assert(reports[i as int] is NotYetVisible || (reports[i as int] is Progress
            && reached_after(reached, reports, i, 1).rank() < requested.rank()));
        let next = advance(reached, rep);
        assert(reached_after(next, reports, (i + 1) as nat, 0) == next);
        assert(reached_after(reached, reports, i, 1) == next);
        match rep {
            ReportView::NotYetVisible => {
                assert(next == reached);
                assert(forall|l: int|
                    i + 1 <= l < j ==> (#[trigger] reports[l] is NotYetVisible || (
                    reports[l] is Progress && reached_after(
                        next,
                        reports,
                        (i + 1) as nat,
                        (l + 1 - i - 1) as nat,
                    ).rank() < requested.rank()))) by {
                    assert forall|l: int| i + 1 <= l < j && reports[l] is Progress implies
                        reached_after(next, reports, (i + 1) as nat, (l - i) as nat).rank()
                        < requested.rank() by {
                        assert(reached_after(reached, reports, i, (l + 1 - i) as nat)
                            == reached_after(next, reports, (i + 1) as nat, (l - i) as nat));
                    }
                }
                lemma_routing_supersedes(
                    requested,
                    hash,
                    next,
                    reports,
                    (i + 1) as nat,
                    (budget - 1) as nat,
                    j,
                );
            },
            ReportView::Progress { .. } => {
                assert(next.rank() < requested.rank());
                assert(forall|l: int|
                    i + 1 <= l < j ==> (#[trigger] reports[l] is NotYetVisible || (
                    reports[l] is Progress && reached_after(
                        next,
                        reports,
                        (i + 1) as nat,
                        (l - i) as nat,
                    ).rank() < requested.rank()))) by {
                    assert forall|l: int| i + 1 <= l < j && reports[l] is Progress implies
                        reached_after(next, reports, (i + 1) as nat, (l - i) as nat).rank()
                        < requested.rank() by {
                        assert(reached_after(reached, reports, i, (l + 1 - i) as nat)
                            == reached_after(next, reports, (i + 1) as nat, (l - i) as nat));
                    }
                }
                lemma_routing_supersedes(
                    requested,
                    hash,
                    next,
                    reports,
                    (i + 1) as nat,
                    (budget - 1) as nat,
                    j,
                );
            },
            ReportView::Routed => {
                assert(false);
            },
            ReportView::NeverReceived => {
                assert(false);
            },
        }
    }
}

} // verus!
