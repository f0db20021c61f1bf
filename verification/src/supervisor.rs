//! The loop that polls on a fixed interval: what it publishes, when it counts a
//! failure and when it gives up.

use vstd::prelude::*;
use crate::exporter::{
    answer,
    collected,
    lemma_member_with_a_status_is_kept,
    Fetched,
    TargetView,
};
use crate::gauges::{
    lemma_round_leaves_no_stale_series,
    publish,
    reading,
    reports,
    round_updates,
    update_views,
    updates,
    Gauge,
    GaugeSet,
    Series,
    Update,
};
use crate::json::Json;
use crate::patroni::{
    lemma_replication_counts_the_items,
    member_views,
    status_of,
    ExporterResult,
};

verus! {

/// The number of failed rounds in a row at which the loop gives up.
pub const FAILURE_LIMIT: usize = 5;

/// The seconds between two rounds.
pub const INTERVAL_SECS: u64 = 30;

/// The state of the loop.
#[derive(Clone, Copy, Debug, PartialEq, Eq, Structural)]
pub enum LoopState {
    /// Rounds are being made.
    Monitoring,
    /// Too many rounds in a row have failed: no round is made any more.
    Aborting,
}

/// What the loop is to do after a round.
#[derive(Debug)]
pub enum Action {
    /// Make the writes to the gauges, then wait for the interval.
    Publish(Vec<Update>),
    /// Leave the gauges as they are and wait for the interval.
    Wait,
    /// Leave the loop.
    Abort,
}

/// The loop's state and its count of failures, as mathematics.
pub struct LoopView {
    pub state: LoopState,
    pub failures: nat,
}

/// The loop's state and the failed rounds in a row behind it.
pub struct Progress {
    state: LoopState,
    failures: usize,
}

/// The loop between two rounds: how far it has come, and the gauges as the last
/// successful round left them.
pub struct Supervisor {
    progress: Progress,
    gauges: GaugeSet,
}

/// The loop before its first round.
pub open spec fn initial() -> LoopView {
    LoopView { state: LoopState::Monitoring, failures: 0 }
}

/// The loop after one more round, which succeeded (`ok`) or failed. A success sets
/// the count back to zero; a failure adds one, and the loop aborts when the count
/// reaches the limit. A loop that aborts stays as it is.
pub open spec fn advance(pre: LoopView, ok: bool) -> LoopView {
    if pre.state == LoopState::Aborting {
        pre
    } else if ok {
        LoopView { state: LoopState::Monitoring, failures: 0 }
    } else if pre.failures + 1 >= FAILURE_LIMIT {
        LoopView { state: LoopState::Aborting, failures: pre.failures + 1 }
    } else {
        LoopView { state: LoopState::Monitoring, failures: pre.failures + 1 }
    }
}

/// The loop after these rounds, from its start.
pub open spec fn after(rounds: Seq<bool>) -> LoopView
    decreases rounds.len(),
{
    if rounds.len() == 0 {
        initial()
    } else {
        advance(after(rounds.drop_last()), rounds.last())
    }
}

/// Whether the `count` rounds from `first` on all failed.
pub open spec fn all_failed(rounds: Seq<bool>, first: int, count: int) -> bool {
    &&& 0 <= first
    &&& first + count <= rounds.len()
    &&& forall|k: int| first <= k < first + count ==> !#[trigger] rounds[k]
}

/// The number of failed rounds at the end of `rounds`.
pub open spec fn streak(rounds: Seq<bool>) -> nat
    decreases rounds.len(),
{
    if rounds.len() == 0 || rounds.last() {
        0
    } else {
        streak(rounds.drop_last()) + 1
    }
}

impl Action {
    /// The seconds to wait before the next round; none where the loop ends.
    pub fn pause(&self) -> (r: Option<u64>)
        ensures
            r == (if *self is Abort {
                None
            } else {
                Some(INTERVAL_SECS)
            }),
    {
        match self {
            Action::Abort => None,
            _ => Some(INTERVAL_SECS),
        }
    }
}

impl View for Progress {
    type V = LoopView;

    closed spec fn view(&self) -> LoopView {
        LoopView { state: self.state, failures: self.failures as nat }
    }
}

impl Progress {
    #[verifier::type_invariant]
    spec fn counts_below_limit(self) -> bool {
        self.state == LoopState::Monitoring ==> self.failures < FAILURE_LIMIT
    }

    /// A loop before its first round.
    pub fn new() -> (r: Progress)
        ensures
            r@ == initial(),
    {
        Progress { state: LoopState::Monitoring, failures: 0 }
    }

    pub fn state(&self) -> (r: LoopState)
        ensures
            r == self@.state,
    {
        self.state
    }

    /// The failed rounds in a row behind the loop.
    pub fn failures(&self) -> (r: usize)
        ensures
            r == self@.failures,
    {
        self.failures
    }

    /// Takes note of a round that succeeded (`ok`) or failed.
    pub fn record(&mut self, ok: bool)
        ensures
            final(self)@ == advance(old(self)@, ok),
    {
        proof {
            use_type_invariant(&*self);
        }
        if self.state == LoopState::Aborting {
            return ;
        }
        if ok {
            self.failures = 0;
        } else {
            let failures = self.failures + 1;
            if failures >= FAILURE_LIMIT {
                self.state = LoopState::Aborting;
            }
            self.failures = failures;
        }
    }
}

impl View for Supervisor {
    type V = LoopView;

    closed spec fn view(&self) -> LoopView {
        self.progress@
    }
}

impl Supervisor {
    /// The value of every series of the gauges.
    pub closed spec fn gauge_values(&self) -> Map<Series, u64> {
        self.gauges@
    }

    /// A loop before its first round, with empty gauges.
    pub fn new() -> (r: Supervisor)
        ensures
            r@ == initial(),
            r.gauge_values() == Map::<Series, u64>::empty(),
    {
        Supervisor { progress: Progress::new(), gauges: GaugeSet::new() }
    }

    pub fn state(&self) -> (r: LoopState)
        ensures
            r == self@.state,
    {
        self.progress.state()
    }

    /// The failed rounds in a row behind the loop.
    pub fn failures(&self) -> (r: usize)
        ensures
            r == self@.failures,
    {
        self.progress.failures()
    }

    /// The gauges as the last successful round left them.
    pub fn gauges(&self) -> (r: &GaugeSet)
        ensures
            r@ == self.gauge_values(),
    {
        &self.gauges
    }

    /// Takes the outcome of a round. While monitoring, a round that yields members,
    /// or none, is published and sets the count of failures back; a round that
    /// failed is counted and leaves the gauges alone, and the fifth in a row ends
    /// the loop. Once the loop aborts, nothing changes any more.
    pub fn round(&mut self, outcome: &ExporterResult) -> (action: Action)
        ensures
            final(self)@ == advance(old(self)@, outcome is Ok),
            final(self).gauge_values() == (match *outcome {
                Ok(members) if old(self)@.state == LoopState::Monitoring => publish(
                    old(self).gauge_values(),
                    member_views(members@),
                ),
                _ => old(self).gauge_values(),
            }),
            match action {
                Action::Publish(writes) => old(self)@.state == LoopState::Monitoring && (
                outcome matches Ok(members) && update_views(writes@) == round_updates(
                    member_views(members@),
                )),
                Action::Wait => outcome is Err && final(self)@.state == LoopState::Monitoring,
                Action::Abort => final(self)@.state == LoopState::Aborting,
            },
    {
        if self.progress.state() == LoopState::Aborting {
            return Action::Abort;
        }
        match outcome {
            Ok(members) => {
                let writes = updates(members);
                self.gauges.apply_all(&writes);
                self.progress.record(true);
                Action::Publish(writes)
            },
            Err(_) => {
                self.progress.record(false);
                if self.progress.state() == LoopState::Aborting {
                    Action::Abort
                } else {
                    Action::Wait
                }
            },
        }
    }
}

/// The rounds at the end of `rounds` that `streak` counts all failed, and the
/// round before them, if there is one, succeeded.
proof fn lemma_streak(rounds: Seq<bool>)
    ensures
        streak(rounds) <= rounds.len(),
        all_failed(rounds, rounds.len() - streak(rounds), streak(rounds) as int),
        streak(rounds) < rounds.len() ==> rounds[rounds.len() - streak(rounds) - 1],
    decreases rounds.len(),
{
    if rounds.len() > 0 && !rounds.last() {
        lemma_streak(rounds.drop_last());
        let shorter = rounds.drop_last();
        assert forall|k: int| rounds.len() - streak(rounds) <= k < rounds.len() implies !rounds[k] by {
            if k < shorter.len() {
                assert(!shorter[k]);
            }
        }
    }
}

/// A loop that still monitors has counted the failed rounds at the end, fewer than
/// the limit, and has seen no run of failures as long as the limit. A loop that
/// aborts has seen such a run.
pub proof fn lemma_after(rounds: Seq<bool>)
    ensures
        after(rounds).state == LoopState::Monitoring ==> after(rounds).failures == streak(rounds)
            && streak(rounds) < FAILURE_LIMIT,
        after(rounds).state == LoopState::Aborting <==> exists|first: int|
            all_failed(rounds, first, FAILURE_LIMIT as int),
    decreases rounds.len(),
{
    let limit = FAILURE_LIMIT as int;
    if rounds.len() == 0 {
        assert forall|first: int| !all_failed(rounds, first, limit) by {}
    } else {
        let shorter = rounds.drop_last();
        let n = rounds.len() as int;
        lemma_after(shorter);
        lemma_streak(rounds);
        if after(shorter).state == LoopState::Aborting {
            let first = choose|first: int| all_failed(shorter, first, limit);
            assert forall|k: int| first <= k < first + limit implies !rounds[k] by {
                assert(!shorter[k]);
            }
            assert(all_failed(rounds, first, limit));
        } else if streak(rounds) >= limit {
            assert forall|k: int| n - limit <= k < n implies !rounds[k] by {}
        } else {
            assert forall|first: int| !all_failed(rounds, first, limit) by {
                if all_failed(rounds, first, limit) {
                    if first + limit <= shorter.len() {
                        assert(all_failed(shorter, first, limit));
                    }
                }
            }
        }
    }
}

/// The loop aborts after a run of five failed rounds, and not before: it aborts
/// after `rounds` exactly if five rounds in a row among them failed.
pub proof fn lemma_aborts_after_five_failures_in_a_row(rounds: Seq<bool>)
    ensures
        after(rounds).state == LoopState::Aborting <==> exists|first: int|
            all_failed(rounds, first, 5),
{
    lemma_after(rounds);
}

/// A round that succeeds, with members or without, is no failure: the count of
/// failures is not raised by it, and while the loop monitors it is zero afterwards.
pub proof fn lemma_success_is_not_counted(pre: LoopView)
    ensures
        advance(pre, true).failures <= pre.failures,
        pre.state == LoopState::Monitoring ==> advance(pre, true) == initial(),
{
}

/// A member that answers with a status has every series of its report among the
/// gauges after the round, whichever of the other members failed to answer.
pub proof fn lemma_answering_member_is_published(
    gauges: Map<Series, u64>,
    targets: Seq<TargetView>,
    statuses: Seq<Fetched>,
    member: int,
    series: Series,
)
    requires
        0 <= member < targets.len(),
        answer(statuses, member) is Some,
        reports(targets[member].name, answer(statuses, member).unwrap(), series),
    ensures
        publish(gauges, collected(targets, statuses)).contains_key(series),
{
    lemma_member_with_a_status_is_kept(targets, statuses, member);
    lemma_round_leaves_no_stale_series(gauges, collected(targets, statuses), series);
}

/// The gauge of replication slots gets, from a member's report, the number of
/// items under `replication` in the report.
pub proof fn lemma_replication_slots_are_the_items(report: Json)
    requires
        status_of(report) is Some,
    ensures
        reading(status_of(report).unwrap(), Gauge::ReplicationSlots) == (match report.field(
            "replication"@,
        ) {
            Some(Json::Array(items)) => items@.len(),
            _ => 0,
        }) as u64,
{
    lemma_replication_counts_the_items(report);
}

} // verus!
