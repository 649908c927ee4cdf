//! What the endpoint handlers share: how a handler's per-cell requests are
//! executed, and the outcome of one cell's request as the merge step sees
//! it.

use vstd::prelude::*;

verus! {

pub type CellId = String;

/// How the per-cell requests of a handler are executed.
#[derive(Debug, PartialEq, Eq, Clone, Copy)]
pub enum ExecutionMode {
    /// Sent to all cells at once.
    Parallel,
    /// Sent one cell at a time in priority order, stopping at the first
    /// success.
    Failover,
}

/// Whether an HTTP status is a success (2xx).
pub open spec fn is_success(status: u16) -> bool {
    200 <= status && status <= 299
}

pub fn is_success_status(status: u16) -> (b: bool)
    ensures
        b == is_success(status),
{
    200 <= status && status <= 299
}

/// The outcome of one cell's request, with the body already decoded.
#[derive(Debug, PartialEq, Eq)]
pub enum CellOutcome<T> {
    /// A 2xx answer; `None` when its body could not be decoded.
    Success(Option<T>),
    /// An answer with another status.
    NonSuccess(u16),
    /// No answer: the request failed or timed out.
    Failed,
}

impl<T> CellOutcome<T> {
    pub open spec fn succeeded(&self) -> bool {
        self is Success
    }
}

/// The status of each cell's answer, `None` when there was none.
pub open spec fn first_success_index(statuses: Seq<Option<u16>>) -> Option<int>
    decreases statuses.len(),
{
    if statuses.len() == 0 {
        None
    } else {
        match first_success_index(statuses.drop_last()) {
            Some(i) => Some(i),
            None => match statuses.last() {
                Some(s) => if is_success(s) {
                    Some(statuses.len() - 1)
                } else {
                    None
                },
                None => None,
            },
        }
    }
}

/// Position of the first successful answer.
pub fn find_first_success(statuses: &Vec<Option<u16>>) -> (r: Option<usize>)
    ensures
        match r {
            Some(i) => first_success_index(statuses@) == Some(i as int),
            None => first_success_index(statuses@) is None,
        },
{
    let mut i: usize = 0;
    assert(statuses@.take(0) =~= Seq::<Option<u16>>::empty());
    while i < statuses.len()
        invariant
            i <= statuses@.len(),
            first_success_index(statuses@.take(i as int)) is None,
        decreases statuses@.len() - i,
    {
        assert(statuses@.take(i + 1).drop_last() =~= statuses@.take(i as int));
        match statuses[i] {
            Some(s) => {
                if is_success_status(s) {
                    proof {
                        assert(statuses@.take(i + 1).last() == statuses@[i as int]);
                        assert(first_success_index(statuses@.take(i + 1)) == Some(i as int));
                        lemma_first_success_stable(statuses@, i + 1, statuses@.len() as int);
                        assert(statuses@.take(statuses@.len() as int) =~= statuses@);
                    }
                    return Some(i);
                }
            },
            None => {},
        }
        i = i + 1;
    }
    assert(statuses@.take(i as int) =~= statuses@);
    None
}

proof fn lemma_first_success_stable(s: Seq<Option<u16>>, m: int, n: int)
    requires
        0 <= m <= n <= s.len(),
        first_success_index(s.take(m)) is Some,
    ensures
        first_success_index(s.take(n)) == first_success_index(s.take(m)),
    decreases n - m,
{
    if m < n {
        lemma_first_success_stable(s, m, n - 1);
        assert(s.take(n).drop_last() =~= s.take(n - 1));
    }
}

/// Position of the first outcome that is a success, whatever its body.
pub open spec fn first_success_outcome<T>(outcomes: Seq<CellOutcome<T>>) -> Option<int>
    decreases outcomes.len(),
{
    if outcomes.len() == 0 {
        None
    } else {
        match first_success_outcome(outcomes.drop_last()) {
            Some(i) => Some(i),
            None => if outcomes.last() is Success {
                Some(outcomes.len() - 1)
            } else {
                None
            },
        }
    }
}

/// Once the first success lies within a prefix, longer prefixes keep it.
pub proof fn lemma_first_success_outcome_stable<T>(s: Seq<CellOutcome<T>>, m: int, n: int)
    requires
        0 <= m <= n <= s.len(),
        first_success_outcome(s.take(m)) is Some,
    ensures
        first_success_outcome(s.take(n)) == first_success_outcome(s.take(m)),
    decreases n - m,
{
    if m < n {
        lemma_first_success_outcome_stable(s, m, n - 1);
        assert(s.take(n).drop_last() =~= s.take(n - 1));
    }
}

} // verus!
