//! Collection of the answers of parallel requests to the cells, with a
//! two-phase deadline: a long wait for the first success, then a shorter
//! one for the rest. The requests and the waiting happen outside; this
//! state machine decides what each completion does to the merged result
//! and when the deadline moves. Times are in milliseconds.

use crate::ingest_router::config::RelayTimeouts;
use crate::ingest_router::relay_project_config_handler::merger::{HeaderList, MergedResults};
use crate::ingest_router::relay_project_config_handler::protocol::ProjectConfigsResponse;
use crate::support::strmap::StrMap;
use vstd::prelude::*;

verus! {

/// How long to wait for the next task when the tasks are awaited in
/// order: the long timeout before any answer, then what is left until the
/// deadline set at the first answer (one millisecond once it has passed).
pub open spec fn in_order_timeout(deadline: Option<u64>, now: u64, timeouts: RelayTimeouts) -> int {
    match deadline {
        Some(d) => if now >= d {
            1
        } else {
            d - now
        },
        None => secs_to_ms(timeouts.task_initial_timeout_secs),
    }
}

pub fn in_order_timeout_ms(deadline: Option<u64>, now: u64, timeouts: &RelayTimeouts) -> (t: u64)
    ensures
        t == in_order_timeout(deadline, now, *timeouts),
{
    match deadline {
        Some(d) => if now >= d {
            1
        } else {
            d - now
        },
        None => secs_to_ms_exec(timeouts.task_initial_timeout_secs),
    }
}

/// `secs` seconds in milliseconds, at most `u64::MAX`.
pub open spec fn secs_to_ms(secs: u64) -> int {
    if secs * 1000 > u64::MAX {
        u64::MAX as int
    } else {
        secs * 1000
    }
}

/// `a + b`, at most `u64::MAX`.
pub open spec fn sat_add(a: int, b: int) -> int {
    if a + b > u64::MAX {
        u64::MAX as int
    } else {
        a + b
    }
}

pub(crate) fn secs_to_ms_exec(secs: u64) -> (r: u64)
    ensures
        r == secs_to_ms(secs),
{
    match secs.checked_mul(1000) {
        Some(v) => v,
        None => u64::MAX,
    }
}

/// The phase of the collection.
#[derive(Debug, PartialEq, Eq, Structural, Clone, Copy)]
pub enum CollectionState {
    /// Waiting for the first success, with the long timeout.
    WaitingForFirst,
    /// A success came at `first_success_at`; the others get the short
    /// timeout from then on.
    CollectingRemaining { first_success_at: u64 },
}

/// The deadline of a phase, `now` being the time it is asked at.
pub open spec fn deadline_of(state: CollectionState, now: u64, timeouts: RelayTimeouts) -> int {
    match state {
        CollectionState::WaitingForFirst => sat_add(
            now as int,
            secs_to_ms(timeouts.task_initial_timeout_secs),
        ),
        CollectionState::CollectingRemaining { first_success_at } => sat_add(
            first_success_at as int,
            secs_to_ms(timeouts.task_subsequent_timeout_secs),
        ),
    }
}

impl CollectionState {
    /// The current deadline.
    pub fn current_deadline(&self, now: u64, timeouts: &RelayTimeouts) -> (d: u64)
        ensures
            d == deadline_of(*self, now, *timeouts),
    {
        match self {
            CollectionState::WaitingForFirst => now.saturating_add(
                secs_to_ms_exec(timeouts.task_initial_timeout_secs),
            ),
            CollectionState::CollectingRemaining { first_success_at } => first_success_at.saturating_add(
                secs_to_ms_exec(timeouts.task_subsequent_timeout_secs),
            ),
        }
    }

    /// Enters the second phase after the first success; a later success
    /// changes nothing.
    pub fn transition_to_subsequent(&mut self, now: u64)
        ensures
            *final(self) == (match *old(self) {
                CollectionState::WaitingForFirst => CollectionState::CollectingRemaining {
                    first_success_at: now,
                },
                s => s,
            }),
    {
        if *self == CollectionState::WaitingForFirst {
            *self = CollectionState::CollectingRemaining { first_success_at: now };
        }
    }
}

/// What a cell's request gave.
pub enum UpstreamOutcome {
    /// The request failed.
    RequestFailed,
    /// An answer, with its body when it could be read.
    Answered { headers: HeaderList, body: Option<ProjectConfigsResponse> },
}

/// The result of one request task.
pub struct UpstreamTaskResult {
    pub cell_name: String,
    pub public_keys: Vec<String>,
    pub result: UpstreamOutcome,
}

/// How a task ended.
pub enum TaskCompletion {
    Finished(UpstreamTaskResult),
    /// The task panicked; only its number is known.
    Panicked,
}

/// The collection in progress. Tasks are numbered in the order they were
/// started.
pub struct ResultCollector {
    results: MergedResults,
    state: CollectionState,
    task_keys: Vec<Option<Vec<String>>>,
    extra_by_cell: StrMap<StrMap<String>>,
    headers_by_cell: StrMap<HeaderList>,
}

/// The pending keys contributed by a readable answer.
pub open spec fn answer_pending(body: ProjectConfigsResponse) -> Seq<String> {
    match body.pending_keys {
        Some(p) => p@,
        None => Seq::empty(),
    }
}

/// Position of the first cell of the list that has other fields recorded.
pub open spec fn first_recorded(cells: Seq<String>, recorded: Map<Seq<char>, StrMap<String>>) -> Option<int>
    decreases cells.len(),
{
    if cells.len() == 0 {
        None
    } else {
        match first_recorded(cells.drop_last(), recorded) {
            Some(i) => Some(i),
            None => if recorded.contains_key(cells.last()@) {
                Some(cells.len() - 1)
            } else {
                None
            },
        }
    }
}

impl ResultCollector {
    /// The results merged so far.
    pub closed spec fn merged(&self) -> MergedResults {
        self.results
    }

    /// The phase of the collection.
    pub closed spec fn phase(&self) -> CollectionState {
        self.state
    }

    pub closed spec fn wf(&self) -> bool {
        &&& self.results.wf()
        &&& self.extra_by_cell.wf()
        &&& self.headers_by_cell.wf()
        &&& forall|c: Seq<char>| #[trigger]
            self.extra_by_cell@.contains_key(c) ==> self.extra_by_cell@[c].wf()
    }

    /// The keys of the tasks that have not ended, by task number.
    pub closed spec fn task_keys_view(&self) -> Seq<Option<Seq<String>>> {
        self.task_keys@.map_values(|o: Option<Vec<String>>| match o {
            Some(v) => Some(v@),
            None => None,
        })
    }

    /// The other fields of each cell that answered readably.
    pub closed spec fn extras(&self) -> Map<Seq<char>, StrMap<String>> {
        self.extra_by_cell@
    }

    /// The headers of each cell that answered readably.
    pub closed spec fn headers(&self) -> Map<Seq<char>, HeaderList> {
        self.headers_by_cell@
    }

    /// The deadline of the current phase.
    pub fn current_deadline(&self, now: u64, timeouts: &RelayTimeouts) -> (d: u64)
        ensures
            d == deadline_of(self.phase(), now, *timeouts),
    {
        self.state.current_deadline(now, timeouts)
    }

    /// Starts a collection for tasks that were sent these keys.
    pub fn new(task_keys: Vec<Vec<String>>) -> (c: Self)
        ensures
            c.wf(),
            c.phase() == CollectionState::WaitingForFirst,
            c.task_keys_view() == task_keys@.map_values(|v: Vec<String>| Some(v@)),
            c.merged().project_configs@ == Map::<Seq<char>, String>::empty(),
            c.merged().pending_keys@ == Seq::<String>::empty(),
            c.merged().extra_fields@ == Map::<Seq<char>, String>::empty(),
            c.merged().http_headers@ == Seq::<(String, String)>::empty(),
            c.extras() == Map::<Seq<char>, StrMap<String>>::empty(),
            c.headers() == Map::<Seq<char>, HeaderList>::empty(),
    {
        let ghost tv = task_keys@;
        let mut keys: Vec<Option<Vec<String>>> = Vec::new();
        let mut rest = task_keys;
        let total = rest.len();
        let mut i: usize = 0;
        assert(tv.skip(0) =~= tv);
        while rest.len() > 0
            invariant
                total == tv.len(),
                i <= total,
                rest@ == tv.skip(i as int),
                keys@.len() == i,
                forall|j: int| 0 <= j < i ==> (#[trigger] keys@[j]) == Some(tv[j]),
            decreases rest@.len(),
        {
            let k = rest.remove(0);
            assert(rest@ =~= tv.skip(i + 1));
            keys.push(Some(k));
            i = i + 1;
        }
        let c = ResultCollector {
            results: MergedResults::new(),
            state: CollectionState::WaitingForFirst,
            task_keys: keys,
            extra_by_cell: StrMap::new(),
            headers_by_cell: StrMap::new(),
        };
        assert(c.task_keys_view() =~= tv.map_values(|v: Vec<String>| Some(v@)));
        c
    }

    /// Forgets a task and returns the keys it was sent, if it had not ended.
    fn take_task_keys(&mut self, task: usize) -> (k: Option<Vec<String>>)
        requires
            task < old(self).task_keys_view().len(),
        ensures
            final(self).task_keys_view() == old(self).task_keys_view().update(task as int, None),
            match k {
                Some(v) => old(self).task_keys_view()[task as int] == Some(v@),
                None => old(self).task_keys_view()[task as int] is None,
            },
            final(self).merged() == old(self).merged(),
            final(self).phase() == old(self).phase(),
            final(self).extra_by_cell == old(self).extra_by_cell,
            final(self).headers_by_cell == old(self).headers_by_cell,
    {
        let ghost before = self.task_keys_view();
        let k = self.task_keys.remove(task);
        self.task_keys.insert(task, None);
        assert(self.task_keys_view() =~= before.update(task as int, None));
        k
    }

    /// A task ended. A panicked task's keys become pending. A failed
    /// request or an unreadable answer makes the keys sent to that cell
    /// pending. A readable answer adds its configs and pending keys and
    /// records its other fields and headers under its cell; the first such
    /// answer starts the second phase at `now`. Returns whether the
    /// deadline must be computed anew.
    pub fn handle_task_completion(&mut self, task: usize, completion: TaskCompletion, now: u64) -> (reset: bool)
        requires
            old(self).wf(),
            task < old(self).task_keys_view().len(),
            completion matches TaskCompletion::Finished(r) ==> (r.result matches UpstreamOutcome::Answered { body: Some(b), .. } ==> b.wf()),
        ensures
            final(self).wf(),
            final(self).task_keys_view() == old(self).task_keys_view().update(task as int, None),
            final(self).merged().http_headers == old(self).merged().http_headers,
            final(self).merged().extra_fields == old(self).merged().extra_fields,
            match completion {
                TaskCompletion::Panicked => {
                    &&& !reset
                    &&& final(self).phase() == old(self).phase()
                    &&& final(self).merged().project_configs@ == old(self).merged().project_configs@
                    &&& final(self).merged().pending_keys@ == old(self).merged().pending_keys@ + match old(self).task_keys_view()[task as int] {
                        Some(k) => k,
                        None => Seq::empty(),
                    }
                    &&& final(self).extras() == old(self).extras()
                    &&& final(self).headers() == old(self).headers()
                },
                TaskCompletion::Finished(r) => match r.result {
                    UpstreamOutcome::Answered { headers, body: Some(b) } => {
                        &&& reset == (old(self).phase() == CollectionState::WaitingForFirst)
                        &&& final(self).phase() == (match old(self).phase() {
                            CollectionState::WaitingForFirst => CollectionState::CollectingRemaining { first_success_at: now },
                            s => s,
                        })
                        &&& final(self).merged().project_configs@ == old(self).merged().project_configs@.union_prefer_right(b.project_configs@)
                        &&& final(self).merged().pending_keys@ == old(self).merged().pending_keys@ + answer_pending(b)
                        &&& final(self).extras() == old(self).extras().insert(r.cell_name@, b.extra_fields)
                        &&& final(self).headers() == old(self).headers().insert(r.cell_name@, headers)
                    },
                    _ => {
                        &&& !reset
                        &&& final(self).phase() == old(self).phase()
                        &&& final(self).merged().project_configs@ == old(self).merged().project_configs@
                        &&& final(self).merged().pending_keys@ == old(self).merged().pending_keys@ + r.public_keys@
                        &&& final(self).extras() == old(self).extras()
                        &&& final(self).headers() == old(self).headers()
                    },
                },
            },
    {
        let k = self.take_task_keys(task);
        match completion {
            TaskCompletion::Panicked => {
                match k {
                    Some(keys) => self.results.add_pending_keys(keys),
                    None => {},
                }
                false
            },
            TaskCompletion::Finished(r) => {
                let UpstreamTaskResult { cell_name, public_keys, result } = r;
                match result {
                    UpstreamOutcome::Answered { headers, body: Some(b) } => {
                        let ProjectConfigsResponse { project_configs, pending_keys, extra_fields } = b;
                        self.results.merge_project_configs(project_configs);
                        match pending_keys {
                            Some(p) => self.results.add_pending_keys(p),
                            None => {},
                        }
                        let ghost before = self.extra_by_cell@;
                        self.extra_by_cell.insert(cell_name.clone(), extra_fields);
                        assert forall|c: Seq<char>| #[trigger]
                            self.extra_by_cell@.contains_key(c) implies self.extra_by_cell@[c].wf() by {
                            if c != cell_name@ {
                                assert(before.contains_key(c));
                            }
                        }
                        self.headers_by_cell.insert(cell_name, headers);
                        let reset = self.state == CollectionState::WaitingForFirst;
                        self.state.transition_to_subsequent(now);
                        reset
                    },
                    _ => {
                        self.results.add_pending_keys(public_keys);
                        false
                    },
                }
            },
        }
    }

    /// The tasks are awaited one after the other in order. `outcome` is
    /// `None` when the task timed out or panicked: the keys it was sent
    /// become pending. Otherwise a failed request or an unreadable answer
    /// makes the task's keys pending and a readable answer is merged as in
    /// `handle_task_completion`; any answer, readable or not, starts the
    /// second phase. Returns whether the phase changed.
    pub fn handle_in_order(&mut self, task: usize, outcome: Option<UpstreamTaskResult>, now: u64) -> (reset: bool)
        requires
            old(self).wf(),
            task < old(self).task_keys_view().len(),
            outcome matches Some(r) ==> (r.result matches UpstreamOutcome::Answered { body: Some(b), .. } ==> b.wf()),
        ensures
            final(self).wf(),
            final(self).task_keys_view() == old(self).task_keys_view().update(task as int, None),
            final(self).merged().http_headers == old(self).merged().http_headers,
            final(self).merged().extra_fields == old(self).merged().extra_fields,
            match outcome {
                None => {
                    &&& !reset
                    &&& final(self).phase() == old(self).phase()
                    &&& final(self).merged().project_configs@ == old(self).merged().project_configs@
                    &&& final(self).merged().pending_keys@ == old(self).merged().pending_keys@ + match old(self).task_keys_view()[task as int] {
                        Some(k) => k,
                        None => Seq::empty(),
                    }
                    &&& final(self).extras() == old(self).extras()
                    &&& final(self).headers() == old(self).headers()
                },
                Some(r) => {
                    &&& reset == (r.result is Answered && old(self).phase() == CollectionState::WaitingForFirst)
                    &&& final(self).phase() == (if r.result is Answered {
                        match old(self).phase() {
                            CollectionState::WaitingForFirst => CollectionState::CollectingRemaining { first_success_at: now },
                            s => s,
                        }
                    } else {
                        old(self).phase()
                    })
                    &&& match r.result {
                        UpstreamOutcome::Answered { headers, body: Some(b) } => {
                            &&& final(self).merged().project_configs@ == old(self).merged().project_configs@.union_prefer_right(b.project_configs@)
                            &&& final(self).merged().pending_keys@ == old(self).merged().pending_keys@ + answer_pending(b)
                            &&& final(self).extras() == old(self).extras().insert(r.cell_name@, b.extra_fields)
                            &&& final(self).headers() == old(self).headers().insert(r.cell_name@, headers)
                        },
                        _ => {
                            &&& final(self).merged().project_configs@ == old(self).merged().project_configs@
                            &&& final(self).merged().pending_keys@ == old(self).merged().pending_keys@ + r.public_keys@
                            &&& final(self).extras() == old(self).extras()
                            &&& final(self).headers() == old(self).headers()
                        },
                    }
                },
            },
    {
        match outcome {
            None => {
                self.handle_aborted(task);
                false
            },
            Some(r) => {
                let answered = match &r.result {
                    UpstreamOutcome::Answered { .. } => true,
                    UpstreamOutcome::RequestFailed => false,
                };
                let readable = match &r.result {
                    UpstreamOutcome::Answered { body: Some(_), .. } => true,
                    _ => false,
                };
                let waiting = self.state == CollectionState::WaitingForFirst;
                self.handle_task_completion(task, TaskCompletion::Finished(r), now);
                if answered && !readable {
                    self.state.transition_to_subsequent(now);
                }
                answered && waiting
            },
        }
    }

    /// A task that was aborted at the deadline was joined: its keys, if it
    /// had not ended, become pending.
    pub fn handle_aborted(&mut self, task: usize)
        requires
            old(self).wf(),
            task < old(self).task_keys_view().len(),
        ensures
            final(self).wf(),
            final(self).task_keys_view() == old(self).task_keys_view().update(task as int, None),
            final(self).phase() == old(self).phase(),
            final(self).merged().project_configs == old(self).merged().project_configs,
            final(self).merged().extra_fields == old(self).merged().extra_fields,
            final(self).merged().http_headers == old(self).merged().http_headers,
            final(self).merged().pending_keys@ == old(self).merged().pending_keys@ + match old(self).task_keys_view()[task as int] {
                Some(k) => k,
                None => Seq::empty(),
            },
            final(self).extras() == old(self).extras(),
            final(self).headers() == old(self).headers(),
    {
        let k = self.take_task_keys(task);
        match k {
            Some(keys) => self.results.add_pending_keys(keys),
            None => {},
        }
    }

    /// Ends the collection: the other fields and headers are those of the
    /// first cell in priority order that answered readably (headers empty
    /// if none were recorded for it); with no such cell they stay empty.
    pub fn finish(self, cell_list: &Vec<String>) -> (r: MergedResults)
        requires
            self.wf(),
        ensures
            r.wf(),
            r.project_configs == self.merged().project_configs,
            r.pending_keys == self.merged().pending_keys,
            match first_recorded(cell_list@, self.extras()) {
                Some(i) => {
                    &&& r.extra_fields@ == self.extras()[cell_list@[i]@]@
                    &&& r.http_headers@ == (if self.headers().contains_key(cell_list@[i]@) {
                        self.headers()[cell_list@[i]@]@
                    } else {
                        Seq::empty()
                    })
                },
                None => r.extra_fields == self.merged().extra_fields && r.http_headers == self.merged().http_headers,
            },
    {
        let ghost orig = self.results;
        let ResultCollector { results, state, task_keys, extra_by_cell, headers_by_cell } = self;
        let mut results = results;
        assert(results == orig);
        assert(results.wf());
        let ghost cl = cell_list@;
        let mut i: usize = 0;
        assert(cl.take(0) =~= Seq::<String>::empty());
        while i < cell_list.len()
            invariant
                i <= cl.len(),
                cl == cell_list@,
                results == orig,
                orig == self.merged(),
                orig.wf(),
                extra_by_cell.wf(),
                headers_by_cell.wf(),
                extra_by_cell@ == self.extras(),
                headers_by_cell@ == self.headers(),
                forall|c: Seq<char>| #[trigger] extra_by_cell@.contains_key(c) ==> extra_by_cell@[c].wf(),
                first_recorded(cl.take(i as int), extra_by_cell@) is None,
            decreases cl.len() - i,
        {
            assert(cl.take(i + 1).drop_last() =~= cl.take(i as int));
            assert(cl.take(i + 1).last() == cl[i as int]);
            if extra_by_cell.contains_key(cell_list[i].as_str()) {
                let mut extra_fields = extra_by_cell;
                let mut headers_map = headers_by_cell;
                let e = take_value(&mut extra_fields, cell_list[i].as_str());
                let h = take_value(&mut headers_map, cell_list[i].as_str());
                proof {
                    lemma_first_recorded_stable(cl, extra_by_cell@, i + 1, cl.len() as int);
                    assert(cl.take(cl.len() as int) =~= cl);
                }
                match e {
                    Some(x) => {
                        results.extra_fields = x;
                    },
                    None => {},
                }
                results.http_headers = match h {
                    Some(x) => x,
                    None => Vec::new(),
                };
                return results;
            }
            i = i + 1;
        }
        assert(cl.take(i as int) =~= cl);
        results
    }
}

/// Once the first recorded cell lies within a prefix, longer prefixes
/// keep it.
proof fn lemma_first_recorded_stable(
    cells: Seq<String>,
    recorded: Map<Seq<char>, StrMap<String>>,
    m: int,
    n: int,
)
    requires
        0 <= m <= n <= cells.len(),
        first_recorded(cells.take(m), recorded) is Some,
    ensures
        first_recorded(cells.take(n), recorded) == first_recorded(cells.take(m), recorded),
    decreases n - m,
{
    if m < n {
        lemma_first_recorded_stable(cells, recorded, m, n - 1);
        assert(cells.take(n).drop_last() =~= cells.take(n - 1));
    }
}

/// Removes the entry for `k` and returns its value, if there was one.
fn take_value<V>(m: &mut StrMap<V>, k: &str) -> (r: Option<V>)
    requires
        old(m).wf(),
    ensures
        final(m).wf(),
        match r {
            Some(v) => old(m)@.contains_key(k@) && v == old(m)@[k@],
            None => !old(m)@.contains_key(k@),
        },
{
    m.remove(k)
}

} // verus!
