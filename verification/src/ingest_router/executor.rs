//! Execution of a handler's per-cell requests: in parallel with deadlines,
//! or one cell at a time until one succeeds. The sending happens outside;
//! these types decide what is kept.

use crate::ingest_router::config::RelayTimeouts;
use crate::ingest_router::errors::IngestRouterError;
use crate::ingest_router::handler::{is_success, is_success_status, CellId};
use crate::ingest_router::locale::Cells;
use crate::ingest_router::relay_project_config_handler::task_executor::{
    sat_add, secs_to_ms, secs_to_ms_exec,
};
use crate::support::text::concat_str;
use vstd::prelude::*;

verus! {

/// In failover mode: whether to stop after an answer with this status
/// (`None`: no answer). The first success ends the sequence.
pub fn failover_should_stop(status: Option<u16>) -> (stop: bool)
    ensures
        stop == (status matches Some(s) && is_success(s)),
{
    match status {
        Some(s) => is_success_status(s),
        None => false,
    }
}

/// The results of a parallel execution as they come in. Cells that have
/// not answered when the collection ends are reported as timed out.
pub struct ParallelCollection<R> {
    pending: Vec<CellId>,
    results: Vec<(CellId, Result<R, IngestRouterError>)>,
}

/// `s` without its first occurrence of `x`.
pub open spec fn remove_first(s: Seq<Seq<char>>, x: Seq<char>) -> Seq<Seq<char>>
    decreases s.len(),
{
    if s.len() == 0 {
        s
    } else if s[0] == x {
        s.drop_first()
    } else {
        seq![s[0]] + remove_first(s.drop_first(), x)
    }
}

/// Taking out the first occurrence of a value takes that value out of
/// the sequence's multiset.
pub proof fn lemma_remove_first_multiset(s: Seq<Seq<char>>, x: Seq<char>)
    requires
        s.contains(x),
    ensures
        remove_first(s, x).to_multiset() == s.to_multiset().remove(x),
    decreases s.len(),
{
    broadcast use vstd::seq_lib::group_to_multiset_ensures;
    assert(s =~= seq![s[0]] + s.drop_first());
    vstd::seq_lib::lemma_multiset_commutative(seq![s[0]], s.drop_first());
    assert(seq![s[0]].to_multiset() =~= vstd::multiset::Multiset::empty().insert(s[0]));
    if s[0] == x {
        assert(s.to_multiset().remove(x) =~= s.drop_first().to_multiset());
    } else {
        let j = choose|j: int| 0 <= j < s.len() && s[j] == x;
        assert(s.drop_first()[j - 1] == x);
        lemma_remove_first_multiset(s.drop_first(), x);
        assert(remove_first(s, x) == seq![s[0]] + remove_first(s.drop_first(), x));
        vstd::seq_lib::lemma_multiset_commutative(seq![s[0]], remove_first(s.drop_first(), x));
        vstd::seq_lib::lemma_multiset_commutative(seq![s[0]], s.drop_first());
        assert(seq![s[0]].to_multiset() =~= vstd::multiset::Multiset::empty().insert(s[0]));
        assert(s.drop_first().to_multiset().contains(x));
        assert(s.to_multiset().remove(x) =~= s.drop_first().to_multiset().remove(x).insert(s[0]));
    }
}

/// Every cell a request went to is accounted for exactly once: recording
/// the answer of a cell that was still pending moves it from the pending
/// cells to the answered ones, so the answered cells followed by the
/// pending ones stay the requested cells, each as often as requested.
pub proof fn law_completion_keeps_cells(results: Seq<Seq<char>>, pending: Seq<Seq<char>>, cell: Seq<char>)
    requires
        pending.contains(cell),
    ensures
        (results.push(cell) + remove_first(pending, cell)).to_multiset() == (results + pending).to_multiset(),
{
    broadcast use vstd::seq_lib::group_to_multiset_ensures;
    lemma_remove_first_multiset(pending, cell);
    vstd::seq_lib::lemma_multiset_commutative(results.push(cell), remove_first(pending, cell));
    vstd::seq_lib::lemma_multiset_commutative(results, pending);
    assert(pending.to_multiset().contains(cell));
    assert((results.push(cell) + remove_first(pending, cell)).to_multiset() =~= (results + pending).to_multiset());
}

impl<R> ParallelCollection<R> {
    pub closed spec fn pending_view(&self) -> Seq<Seq<char>> {
        self.pending@.map_values(|c: CellId| c@)
    }

    pub closed spec fn result_cells(&self) -> Seq<Seq<char>> {
        self.results@.map_values(|r: (CellId, Result<R, IngestRouterError>)| r.0@)
    }

    /// The answers recorded so far, in the order they came.
    pub closed spec fn results_view(&self) -> Seq<(CellId, Result<R, IngestRouterError>)> {
        self.results@
    }

    /// Starts a collection for requests sent to the given cells.
    pub fn new(requested: Vec<CellId>) -> (c: Self)
        ensures
            c.pending_view() == requested@.map_values(|x: CellId| x@),
            c.result_cells() == Seq::<Seq<char>>::empty(),
            c.results_view() == Seq::<(CellId, Result<R, IngestRouterError>)>::empty(),
    {
        let c = ParallelCollection { pending: requested, results: Vec::new() };
        assert(c.result_cells() =~= Seq::<Seq<char>>::empty());
        c
    }

    /// Records the answer of a cell.
    pub fn complete(&mut self, cell_id: CellId, result: Result<R, IngestRouterError>)
        ensures
            final(self).pending_view() == remove_first(old(self).pending_view(), cell_id@),
            final(self).result_cells() == old(self).result_cells().push(cell_id@),
            final(self).results_view() == old(self).results_view().push((cell_id, result)),
    {
        let ghost before = self.pending_view();
        let mut i: usize = 0;
        assert(before.skip(0) =~= before);
        while i < self.pending.len() && self.pending[i] != cell_id
            invariant
                i <= self.pending@.len(),
                self.pending_view() == before,
                forall|k: int| 0 <= k < i ==> self.pending@[k]@ != cell_id@,
                remove_first(before, cell_id@) == before.take(i as int) + remove_first(
                    before.skip(i as int),
                    cell_id@,
                ),
            decreases self.pending@.len() - i,
        {
            assert(before.skip(i as int)[0] == self.pending@[i as int]@);
            assert(before.skip(i as int).drop_first() =~= before.skip(i + 1));
            assert(before.take(i + 1) =~= before.take(i as int).push(before[i as int]));
            assert(before.take(i as int) + (seq![before[i as int]] + remove_first(
                before.skip(i + 1),
                cell_id@,
            )) =~= before.take(i + 1) + remove_first(before.skip(i + 1), cell_id@));
            i = i + 1;
        }
        if i < self.pending.len() {
            assert(before.skip(i as int)[0] == self.pending@[i as int]@);
            assert(before.skip(i as int).drop_first() =~= before.skip(i + 1));
            self.pending.remove(i);
            assert(self.pending_view() =~= before.take(i as int) + before.skip(i + 1));
        } else {
            assert(before.skip(i as int) =~= Seq::<Seq<char>>::empty());
            assert(before.take(i as int) =~= before);
        }
        let ghost rc = self.result_cells();
        self.results.push((cell_id, result));
        assert(self.result_cells() =~= rc.push(cell_id@));
    }

    /// Ends the collection: the answers in the order they came, then a
    /// timeout for each cell that has not answered.
    pub fn finish(self) -> (r: Vec<(CellId, Result<R, IngestRouterError>)>)
        ensures
            r@.len() == self.results_view().len() + self.pending_view().len(),
            r@.take(self.results_view().len() as int) == self.results_view(),
            forall|k: int|
                0 <= k < self.pending_view().len() ==> {
                    let x = #[trigger] r@[self.results_view().len() + k];
                    &&& x.0@ == self.pending_view()[k]
                    &&& x.1 matches Err(IngestRouterError::UpstreamTimeout(c))
                    &&& c@ == self.pending_view()[k]
                },
    {
        let ParallelCollection { pending, results } = self;
        let ghost rv = results@;
        let ghost pv = pending@.map_values(|c: CellId| c@);
        let mut out = results;
        let n0 = out.len();
        let mut i: usize = 0;
        while i < pending.len()
            invariant
                n0 == rv.len(),
                i <= pending@.len(),
                pv == pending@.map_values(|c: CellId| c@),
                out@.len() == n0 + i,
                out@.take(n0 as int) == rv,
                forall|k: int|
                    0 <= k < i ==> {
                        let x = #[trigger] out@[n0 + k];
                        &&& x.0@ == pv[k]
                        &&& x.1 matches Err(IngestRouterError::UpstreamTimeout(c))
                        &&& c@ == pv[k]
                    },
            decreases pending@.len() - i,
        {
            let c = pending[i].clone();
            let c2 = pending[i].clone();
            let ghost prev = out@;
            out.push((c, Err(IngestRouterError::UpstreamTimeout(c2))));
            assert(out@.take(n0 as int) =~= prev.take(n0 as int));
            assert forall|k: int| 0 <= k < i + 1 implies {
                let x = #[trigger] out@[n0 + k];
                &&& x.0@ == pv[k]
                &&& x.1 matches Err(IngestRouterError::UpstreamTimeout(c))
                &&& c@ == pv[k]
            } by {
                if k < i {
                    assert(out@[n0 + k] == prev[n0 + k]);
                }
            }
            i = i + 1;
        }
        out
    }
}

/// The phase of a parallel execution.
#[derive(Debug, PartialEq, Eq, Structural, Clone, Copy)]
pub enum ParallelPhase {
    /// Waiting, since `started_at`, for the first task to end, with the
    /// long timeout.
    First { started_at: u64 },
    /// The first wait ended at `since`; the other tasks get the short
    /// timeout from then on.
    Rest { since: u64 },
}

/// What ended a wait of a parallel execution.
#[derive(Debug, PartialEq, Eq, Structural, Clone, Copy)]
pub enum ParallelEvent {
    /// A task ended, with an answer or by a panic.
    TaskEnded,
    /// The deadline of the phase passed.
    DeadlinePassed,
    /// No task is left to wait for.
    NoTasksLeft,
}

/// The deadline of a phase, in milliseconds.
pub open spec fn phase_deadline(phase: ParallelPhase, timeouts: RelayTimeouts) -> int {
    match phase {
        ParallelPhase::First { started_at } => sat_add(
            started_at as int,
            secs_to_ms(timeouts.task_initial_timeout_secs),
        ),
        ParallelPhase::Rest { since } => sat_add(
            since as int,
            secs_to_ms(timeouts.task_subsequent_timeout_secs),
        ),
    }
}

/// The phase after a wait ended by `event` at `now` (`None`: stop
/// waiting and report the cells still pending as timed out). The first
/// wait ends on any event; after it, tasks are taken until the short
/// deadline passes or none is left.
pub open spec fn phase_after(phase: ParallelPhase, event: ParallelEvent, now: u64) -> Option<ParallelPhase> {
    match (phase, event) {
        (ParallelPhase::First { .. }, ParallelEvent::NoTasksLeft) => None,
        (ParallelPhase::First { .. }, _) => Some(ParallelPhase::Rest { since: now }),
        (ParallelPhase::Rest { since }, ParallelEvent::TaskEnded) => Some(ParallelPhase::Rest { since }),
        (ParallelPhase::Rest { .. }, _) => None,
    }
}

impl ParallelPhase {
    /// The phase a parallel execution starts in.
    pub fn start(now: u64) -> (p: Self)
        ensures
            p == (ParallelPhase::First { started_at: now }),
    {
        ParallelPhase::First { started_at: now }
    }

    /// The time until which the current wait lasts.
    pub fn deadline(&self, timeouts: &RelayTimeouts) -> (d: u64)
        ensures
            d == phase_deadline(*self, *timeouts),
    {
        match self {
            ParallelPhase::First { started_at } => started_at.saturating_add(
                secs_to_ms_exec(timeouts.task_initial_timeout_secs),
            ),
            ParallelPhase::Rest { since } => since.saturating_add(
                secs_to_ms_exec(timeouts.task_subsequent_timeout_secs),
            ),
        }
    }

    /// The next phase after a wait ended by `event` at `now`.
    pub fn after(&self, event: ParallelEvent, now: u64) -> (next: Option<ParallelPhase>)
        ensures
            next == phase_after(*self, event, now),
    {
        match (*self, event) {
            (ParallelPhase::First { .. }, ParallelEvent::NoTasksLeft) => None,
            (ParallelPhase::First { .. }, _) => Some(ParallelPhase::Rest { since: now }),
            (ParallelPhase::Rest { since }, ParallelEvent::TaskEnded) => Some(ParallelPhase::Rest { since }),
            (ParallelPhase::Rest { .. }, _) => None,
        }
    }
}

/// Once the first wait is over, the deadline no longer moves: every task
/// that ends keeps the execution in the same phase, with the same
/// deadline, and the deadline passing ends it.
pub proof fn law_rest_deadline_fixed(since: u64, event: ParallelEvent, now: u64, timeouts: RelayTimeouts)
    ensures
        match phase_after(ParallelPhase::Rest { since }, event, now) {
            Some(p) => event == ParallelEvent::TaskEnded && phase_deadline(p, timeouts)
                == phase_deadline(ParallelPhase::Rest { since }, timeouts),
            None => event != ParallelEvent::TaskEnded,
        },
{
}

/// The relay URL a cell's request goes to; an unknown cell is an
/// internal error.
pub fn relay_url_for_cell(cells: &Cells, cell_id: &str) -> (r: Result<String, IngestRouterError>)
    requires
        cells.wf(),
    ensures
        match r {
            Ok(u) => cells.upstreams().contains_key(cell_id@) && u == cells.upstreams()[cell_id@].relay_url,
            Err(e) => !cells.upstreams().contains_key(cell_id@) && (e matches IngestRouterError::InternalError(m) && m@ == "Unknown cell: "@ + cell_id@),
        },
{
    match cells.get_upstream(cell_id) {
        Some(u) => Ok(u.relay_url.clone()),
        None => Err(IngestRouterError::InternalError(concat_str("Unknown cell: ", cell_id))),
    }
}

/// The results of a failover execution as the cells are tried in order:
/// the first success alone once it comes, else every failure.
pub struct FailoverCollection<R> {
    failures: Vec<(CellId, Result<R, IngestRouterError>)>,
}

impl<R> FailoverCollection<R> {
    pub closed spec fn failures_view(&self) -> Seq<(CellId, Result<R, IngestRouterError>)> {
        self.failures@
    }

    pub fn new() -> (c: Self)
        ensures
            c.failures_view() == Seq::<(CellId, Result<R, IngestRouterError>)>::empty(),
    {
        FailoverCollection { failures: Vec::new() }
    }

    /// Records a cell's result, with the status of its answer (`None`:
    /// no answer). A success ends the execution: its result alone is
    /// returned. Otherwise the failure is kept and the next cell is tried.
    pub fn record(&mut self, cell_id: CellId, result: Result<R, IngestRouterError>, status: Option<u16>) -> (done: Option<Vec<(CellId, Result<R, IngestRouterError>)>>)
        ensures
            match done {
                Some(v) => (status matches Some(s) && is_success(s)) && v@ == seq![(cell_id, result)]
                    && final(self).failures_view() == old(self).failures_view(),
                None => !(status matches Some(s) && is_success(s))
                    && final(self).failures_view() == old(self).failures_view().push((cell_id, result)),
            },
    {
        if failover_should_stop(status) {
            let mut v = Vec::new();
            v.push((cell_id, result));
            Some(v)
        } else {
            self.failures.push((cell_id, result));
            None
        }
    }

    /// Every cell failed: all their results, in order.
    pub fn finish(self) -> (v: Vec<(CellId, Result<R, IngestRouterError>)>)
        ensures
            v@ == self.failures_view(),
    {
        self.failures
    }
}

} // verus!
