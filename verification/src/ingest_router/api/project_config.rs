//! The relay project configs endpoint: public keys are grouped by the cell
//! that owns them, one request goes to each such cell, and the answers are
//! merged into one. JSON values that are passed through unchanged are held
//! as their text.

use crate::ingest_router::handler::{
    first_success_outcome, lemma_first_success_outcome_stable, CellId, CellOutcome, ExecutionMode,
};
use crate::ingest_router::locale::Cells;
use crate::support::strmap::{lemma_clone_strings, StrMap};
use vstd::prelude::*;

verus! {

/// Status returned when no cell answered with a success and no key is
/// left pending.
pub const SERVICE_UNAVAILABLE: u16 = 503;

/// A project configs request: the public keys, and every other field as
/// JSON text, passed through to the cells as it is.
#[derive(Debug, PartialEq, Eq)]
pub struct ProjectConfigsRequest {
    pub public_keys: Vec<String>,
    pub extra_fields: StrMap<String>,
}

/// A project configs answer: configs by public key, keys still pending,
/// and every other field, with JSON values as text.
#[derive(Debug, PartialEq, Eq)]
pub struct ProjectConfigsResponse {
    pub project_configs: StrMap<String>,
    pub pending_keys: Vec<String>,
    pub extra_fields: StrMap<String>,
}

/// The content of an answer as the merge sees it.
pub struct MergeView {
    pub configs: Map<Seq<char>, String>,
    pub extra: Map<Seq<char>, String>,
    pub pending: Seq<String>,
}

impl ProjectConfigsResponse {
    pub open spec fn wf(&self) -> bool {
        self.project_configs.wf() && self.extra_fields.wf()
    }

    pub open spec fn merge_view(&self) -> MergeView {
        MergeView {
            configs: self.project_configs@,
            extra: self.extra_fields@,
            pending: self.pending_keys@,
        }
    }

    /// An empty answer.
    pub fn new() -> (r: Self)
        ensures
            r.wf(),
            r.project_configs@ == Map::<Seq<char>, String>::empty(),
            r.extra_fields@ == Map::<Seq<char>, String>::empty(),
            r.pending_keys@ == Seq::<String>::empty(),
    {
        ProjectConfigsResponse {
            project_configs: StrMap::new(),
            pending_keys: Vec::new(),
            extra_fields: StrMap::new(),
        }
    }
}

impl Default for ProjectConfigsResponse {
    fn default() -> (r: Self)
        ensures
            r.wf(),
            r.project_configs@ == Map::<Seq<char>, String>::empty(),
            r.extra_fields@ == Map::<Seq<char>, String>::empty(),
            r.pending_keys@ == Seq::<String>::empty(),
    {
        ProjectConfigsResponse::new()
    }
}

/// What the split step hands to the merge step: the keys sent to each
/// cell, the keys that no cell could be found for, and the cells of the
/// locale in priority order (first: highest).
pub struct ProjectConfigsMetadata {
    pub cell_to_keys: StrMap<Vec<String>>,
    pub unassigned_keys: Vec<String>,
    pub cell_priority: Vec<CellId>,
}

impl ProjectConfigsMetadata {
    pub open spec fn wf(&self) -> bool {
        self.cell_to_keys.wf()
    }
}

/// Handler for `POST /api/0/relays/projectconfigs/`. Which cell owns a
/// key is asked of the locator outside; the answers come in as arguments.
pub struct ProjectConfigsHandler;

/// Keys grouped by the cell they were routed to, each group in request
/// order (`None`: the key could not be routed).
pub open spec fn grouped_keys(keys: Seq<String>, routes: Seq<Option<String>>) -> Map<
    Seq<char>,
    Seq<String>,
>
    decreases keys.len(),
{
    if keys.len() == 0 || routes.len() == 0 {
        Map::empty()
    } else {
        let g = grouped_keys(keys.drop_last(), routes.drop_last());
        match routes.last() {
            Some(c) => g.insert(
                c@,
                if g.contains_key(c@) {
                    g[c@].push(keys.last())
                } else {
                    seq![keys.last()]
                },
            ),
            None => g,
        }
    }
}

/// The keys that could not be routed, in request order.
pub open spec fn unrouted_keys(keys: Seq<String>, routes: Seq<Option<String>>) -> Seq<String>
    decreases keys.len(),
{
    if keys.len() == 0 || routes.len() == 0 {
        Seq::empty()
    } else {
        let u = unrouted_keys(keys.drop_last(), routes.drop_last());
        if routes.last() is None {
            u.push(keys.last())
        } else {
            u
        }
    }
}

pub open spec fn is_succeeded(x: (CellId, CellOutcome<ProjectConfigsResponse>)) -> bool {
    x.1 is Success
}

pub open spec fn is_non_success(x: (CellId, CellOutcome<ProjectConfigsResponse>)) -> bool {
    x.1 is NonSuccess
}

pub open spec fn is_failed(x: (CellId, CellOutcome<ProjectConfigsResponse>)) -> bool {
    x.1 is Failed
}

pub open spec fn outcomes_of(rs: Seq<(CellId, CellOutcome<ProjectConfigsResponse>)>) -> Seq<
    CellOutcome<ProjectConfigsResponse>,
> {
    rs.map_values(|x: (CellId, CellOutcome<ProjectConfigsResponse>)| x.1)
}

/// One answer taken into the merge: a readable success adds its configs
/// (later ones replacing earlier ones) and its pending keys; any other
/// answer (a failure, another status, or a success whose body could not
/// be read) makes pending the keys that were sent to its cell. The other fields
/// are chosen apart, by priority.
pub open spec fn merge_step(
    acc: MergeView,
    cell_keys: Map<Seq<char>, Vec<String>>,
    item: (CellId, CellOutcome<ProjectConfigsResponse>),
) -> MergeView {
    match item.1 {
        CellOutcome::Success(Some(b)) => MergeView {
            configs: acc.configs.union_prefer_right(b.project_configs@),
            extra: acc.extra,
            pending: acc.pending + b.pending_keys@,
        },
        _ => if cell_keys.contains_key(item.0@) {
            MergeView { configs: acc.configs, extra: acc.extra, pending: acc.pending + cell_keys[item.0@]@ }
        } else {
            acc
        },
    }
}

pub open spec fn merge_fold(
    acc: MergeView,
    cell_keys: Map<Seq<char>, Vec<String>>,
    items: Seq<(CellId, CellOutcome<ProjectConfigsResponse>)>,
) -> MergeView
    decreases items.len(),
{
    if items.len() == 0 {
        acc
    } else {
        merge_step(merge_fold(acc, cell_keys, items.drop_last()), cell_keys, items.last())
    }
}

/// The position of a cell in the priority order: the index of its first
/// occurrence, or the length of the order when it is not there.
pub open spec fn rank(priority: Seq<Seq<char>>, cell: Seq<char>) -> int
    decreases priority.len(),
{
    if priority.len() == 0 {
        0
    } else if priority[0] == cell {
        0
    } else {
        1 + rank(priority.drop_first(), cell)
    }
}

/// A success whose body could be read.
pub open spec fn readable_success(x: (CellId, CellOutcome<ProjectConfigsResponse>)) -> bool {
    x.1 matches CellOutcome::Success(Some(_))
}

/// The answer whose other fields are kept: the readable success of the
/// cell of highest priority (the first to come among answers of equal
/// priority).
pub open spec fn preferred_success(
    priority: Seq<Seq<char>>,
    rs: Seq<(CellId, CellOutcome<ProjectConfigsResponse>)>,
) -> Option<int>
    decreases rs.len(),
{
    if rs.len() == 0 {
        None
    } else {
        let b = preferred_success(priority, rs.drop_last());
        let i = rs.len() - 1;
        if readable_success(rs[i]) {
            match b {
                None => Some(i),
                Some(j) => if rank(priority, rs[i].0@) < rank(priority, rs[j].0@) {
                    Some(i)
                } else {
                    Some(j)
                },
            }
        } else {
            b
        }
    }
}

/// The other fields of the merged answer: those of the preferred
/// success, none when no cell answered readably.
pub open spec fn preferred_extra(
    priority: Seq<Seq<char>>,
    rs: Seq<(CellId, CellOutcome<ProjectConfigsResponse>)>,
) -> Map<Seq<char>, String> {
    match preferred_success(priority, rs) {
        Some(i) => match rs[i].1 {
            CellOutcome::Success(Some(b)) => b.extra_fields@,
            _ => Map::empty(),
        },
        None => Map::empty(),
    }
}

/// The cell names of a priority order.
pub open spec fn priority_view(cells: Seq<CellId>) -> Seq<Seq<char>> {
    cells.map_values(|c: CellId| c@)
}

/// The merged answer: starting from the unrouted keys as pending, the
/// successes are taken first, then the other statuses, then the failed
/// requests, each group in the order the answers came; the other fields
/// are those of the highest-priority cell that answered readably.
pub open spec fn merged_view(
    meta: ProjectConfigsMetadata,
    rs: Seq<(CellId, CellOutcome<ProjectConfigsResponse>)>,
) -> MergeView {
    let ck = meta.cell_to_keys@;
    let init = MergeView {
        configs: Map::empty(),
        extra: Map::empty(),
        pending: meta.unassigned_keys@,
    };
    let s = merge_fold(init, ck, rs.filter(|x: (CellId, CellOutcome<ProjectConfigsResponse>)| is_succeeded(x)));
    let n = merge_fold(s, ck, rs.filter(|x: (CellId, CellOutcome<ProjectConfigsResponse>)| is_non_success(x)));
    let f = merge_fold(n, ck, rs.filter(|x: (CellId, CellOutcome<ProjectConfigsResponse>)| is_failed(x)));
    MergeView {
        configs: f.configs,
        extra: preferred_extra(priority_view(meta.cell_priority@), rs),
        pending: f.pending,
    }
}

/// The rank of a cell, by looking through the priority order.
fn rank_of(priority: &Vec<CellId>, cell: &String) -> (r: usize)
    ensures
        r == rank(priority_view(priority@), cell@),
{
    let ghost pv = priority_view(priority@);
    let mut i: usize = 0;
    assert(pv.skip(0) =~= pv);
    while i < priority.len()
        invariant
            i <= priority@.len(),
            pv == priority_view(priority@),
            rank(pv, cell@) == i + rank(pv.skip(i as int), cell@),
        decreases priority@.len() - i,
    {
        assert(pv.skip(i as int)[0] == priority@[i as int]@);
        if priority[i] == *cell {
            return i;
        }
        assert(pv.skip(i as int).drop_first() =~= pv.skip(i + 1));
        i = i + 1;
    }
    assert(pv.skip(i as int).len() == 0);
    i
}

/// Whether every readable answer has well-formed maps.
pub open spec fn bodies_wf(rs: Seq<(CellId, CellOutcome<ProjectConfigsResponse>)>) -> bool {
    forall|i: int|
        0 <= i < rs.len() ==> ((#[trigger] rs[i]).1 matches CellOutcome::Success(Some(b)) ==> b.wf())
}

/// A copy of a list of strings.
fn clone_strings(v: &Vec<String>) -> (r: Vec<String>)
    ensures
        r@ == v@,
{
    let mut r: Vec<String> = Vec::new();
    let mut i: usize = 0;
    while i < v.len()
        invariant
            i <= v@.len(),
            r@ == v@.take(i as int),
        decreases v@.len() - i,
    {
        r.push(v[i].clone());
        assert(v@.take(i + 1) =~= v@.take(i as int).push(v@[i as int]));
        i = i + 1;
    }
    assert(v@.take(v@.len() as int) =~= v@);
    r
}

/// Takes the answers into `acc` in order, by the rule of `merge_step`.
fn fold_into(
    acc: &mut ProjectConfigsResponse,
    items: Vec<(CellId, CellOutcome<ProjectConfigsResponse>)>,
    cell_to_keys: &StrMap<Vec<String>>,
)
    requires
        old(acc).wf(),
        cell_to_keys.wf(),
        bodies_wf(items@),
    ensures
        final(acc).wf(),
        final(acc).merge_view() == merge_fold(old(acc).merge_view(), cell_to_keys@, items@),
{
    let ghost all = items@;
    let ghost start = acc.merge_view();
    let total = items.len();
    let mut rest = items;
    let mut i: usize = 0;
    assert(all.skip(0) =~= all);
    assert(all.take(0) =~= Seq::<(CellId, CellOutcome<ProjectConfigsResponse>)>::empty());
    while rest.len() > 0
        invariant
            total == all.len(),
            i <= total,
            rest@ == all.skip(i as int),
            bodies_wf(all),
            cell_to_keys.wf(),
            acc.wf(),
            acc.merge_view() == merge_fold(start, cell_to_keys@, all.take(i as int)),
        decreases rest@.len(),
    {
        let item = rest.remove(0);
        proof {
            assert(all.take(i + 1).drop_last() =~= all.take(i as int));
            assert(all.take(i + 1).last() == all[i as int]);
            assert(rest@ =~= all.skip(i + 1));
            assert(item == all[i as int]);
        }
        let (cell_id, outcome) = item;
        match outcome {
            CellOutcome::Success(Some(b)) => {
                let ProjectConfigsResponse { project_configs, pending_keys, extra_fields } = b;
                acc.project_configs.extend(project_configs);
                let mut p = pending_keys;
                acc.pending_keys.append(&mut p);
            },
            _ => {
                match cell_to_keys.get(cell_id.as_str()) {
                    Some(keys) => {
                        let mut c = clone_strings(keys);
                        acc.pending_keys.append(&mut c);
                    },
                    None => {},
                }
            },
        }
        i = i + 1;
    }
    assert(all.take(total as int) =~= all);
}

impl ProjectConfigsHandler {
    /// All cells are asked at once.
    pub fn execution_mode(&self) -> (m: ExecutionMode)
        ensures
            m == ExecutionMode::Parallel,
    {
        ExecutionMode::Parallel
    }

    /// Groups the request's keys by the cell that owns each (`routes[i]`
    /// is the cell of the `i`-th key, `None` when it could not be found).
    /// Returns one request per cell, in the order the cells were first
    /// seen, with that cell's keys and all of the request's other fields;
    /// and the metadata for the merge, which keeps the locale's cells in
    /// priority order.
    pub fn split_request(
        &self,
        request: ProjectConfigsRequest,
        routes: Vec<Option<CellId>>,
        cells: &Cells,
    ) -> (r: (Vec<(CellId, ProjectConfigsRequest)>, ProjectConfigsMetadata))
        requires
            request.public_keys@.len() == routes@.len(),
            request.extra_fields.wf(),
        ensures
            r.1.wf(),
            priority_view(r.1.cell_priority@) == cells.cell_order(),
            r.1.cell_to_keys@.dom() == grouped_keys(request.public_keys@, routes@).dom(),
            forall|c: Seq<char>| #[trigger]
                r.1.cell_to_keys@.contains_key(c) ==> r.1.cell_to_keys@[c]@ == grouped_keys(
                    request.public_keys@,
                    routes@,
                )[c],
            r.1.unassigned_keys@ == unrouted_keys(request.public_keys@, routes@),
            r.0@.len() == r.1.cell_to_keys.key_seq().len(),
            forall|i: int|
                0 <= i < r.0@.len() ==> {
                    let (c, req) = #[trigger] r.0@[i];
                    &&& c@ == r.1.cell_to_keys.key_seq()[i]
                    &&& req.public_keys@ == r.1.cell_to_keys@[c@]@
                    &&& req.extra_fields.wf()
                    &&& req.extra_fields@ == request.extra_fields@
                },
    {
        let ProjectConfigsRequest { public_keys, extra_fields } = request;
        let ghost ks = public_keys@;
        let ghost rs = routes@;
        let mut cell_to_keys: StrMap<Vec<String>> = StrMap::new();
        let mut pending: Vec<String> = Vec::new();
        let mut i: usize = 0;
        while i < public_keys.len()
            invariant
                i <= ks.len(),
                ks.len() == rs.len(),
                ks == public_keys@,
                rs == routes@,
                cell_to_keys.wf(),
                cell_to_keys@.dom() == grouped_keys(ks.take(i as int), rs.take(i as int)).dom(),
                forall|c: Seq<char>| #[trigger]
                    cell_to_keys@.contains_key(c) ==> cell_to_keys@[c]@ == grouped_keys(
                        ks.take(i as int),
                        rs.take(i as int),
                    )[c],
                pending@ == unrouted_keys(ks.take(i as int), rs.take(i as int)),
            decreases ks.len() - i,
        {
            proof {
                assert(ks.take(i + 1).drop_last() =~= ks.take(i as int));
                assert(rs.take(i + 1).drop_last() =~= rs.take(i as int));
                assert(ks.take(i + 1).last() == ks[i as int]);
                assert(rs.take(i + 1).last() == rs[i as int]);
            }
            let key = public_keys[i].clone();
            match &routes[i] {
                Some(c) => {
                    cell_to_keys.push_to(c.clone(), key);
                    proof {
                        let g = grouped_keys(ks.take(i + 1), rs.take(i + 1));
                        assert(cell_to_keys@.dom() =~= g.dom());
                    }
                },
                None => {
                    pending.push(key);
                },
            }
            i = i + 1;
        }
        proof {
            assert(ks.take(i as int) =~= ks);
            assert(rs.take(i as int) =~= rs);
        }
        let n = cell_to_keys.len();
        let mut requests: Vec<(CellId, ProjectConfigsRequest)> = Vec::new();
        let mut j: usize = 0;
        while j < n
            invariant
                n == cell_to_keys.key_seq().len(),
                j <= n,
                cell_to_keys.wf(),
                extra_fields.wf(),
                requests@.len() == j,
                forall|m: int|
                    0 <= m < j ==> {
                        let (c, req) = #[trigger] requests@[m];
                        &&& c@ == cell_to_keys.key_seq()[m]
                        &&& req.public_keys@ == cell_to_keys@[c@]@
                        &&& req.extra_fields.wf()
                        &&& req.extra_fields@ == extra_fields@
                    },
            decreases n - j,
        {
            proof {
                cell_to_keys.lemma_index(j as int);
            }
            let c = cell_to_keys.key_at(j).clone();
            let keys = clone_strings(cell_to_keys.value_at(j));
            let extra = extra_fields.clone();
            proof {
                lemma_clone_strings(extra_fields, extra);
            }
            requests.push((c, ProjectConfigsRequest { public_keys: keys, extra_fields: extra }));
            j = j + 1;
        }
        let cell_priority = cells.cell_list();
        assert(priority_view(cell_priority@) =~= cells.cell_order());
        (requests, ProjectConfigsMetadata { cell_to_keys, unassigned_keys: pending, cell_priority })
    }

    /// Merges the answers of the cells. When a cell succeeded, the result
    /// is the position of the first success (whose headers are reused) with
    /// the merged answer. When none did, the merged answer still goes back
    /// (with no position) if it holds pending keys, so the relay asks for
    /// them again; with nothing pending the status is 503.
    pub fn merge_responses(
        &self,
        responses: Vec<(CellId, CellOutcome<ProjectConfigsResponse>)>,
        metadata: ProjectConfigsMetadata,
    ) -> (r: Result<(Option<usize>, ProjectConfigsResponse), u16>)
        requires
            metadata.wf(),
            bodies_wf(responses@),
        ensures
            match r {
                Ok((f, body)) => {
                    &&& body.wf()
                    &&& body.merge_view() == merged_view(metadata, responses@)
                    &&& match f {
                        Some(i) => first_success_outcome(outcomes_of(responses@)) == Some(i as int),
                        None => {
                            &&& first_success_outcome(outcomes_of(responses@)) is None
                            &&& merged_view(metadata, responses@).pending.len() > 0
                        },
                    }
                },
                Err(s) => {
                    &&& s == SERVICE_UNAVAILABLE
                    &&& first_success_outcome(outcomes_of(responses@)) is None
                    &&& merged_view(metadata, responses@).pending.len() == 0
                },
            },
    {
        let ghost rs = responses@;
        let ghost meta = metadata;
        let ghost pr = priority_view(metadata.cell_priority@);
        let ProjectConfigsMetadata { cell_to_keys, unassigned_keys, cell_priority } = metadata;
        let mut acc = ProjectConfigsResponse {
            project_configs: StrMap::new(),
            pending_keys: unassigned_keys,
            extra_fields: StrMap::new(),
        };
        let mut succeeded: Vec<(CellId, CellOutcome<ProjectConfigsResponse>)> = Vec::new();
        let mut non_success: Vec<(CellId, CellOutcome<ProjectConfigsResponse>)> = Vec::new();
        let mut failed: Vec<(CellId, CellOutcome<ProjectConfigsResponse>)> = Vec::new();
        let mut first: Option<usize> = None;
        // The preferred readable success so far: its position among the
        // successes, and the rank of its cell.
        let mut best: Option<(usize, usize)> = None;
        let ghost mut best_at: int = 0;
        let total = responses.len();
        let mut rest = responses;
        let mut i: usize = 0;
        proof {
            assert(rs.skip(0) =~= rs);
            assert(rs.take(0) =~= Seq::<(CellId, CellOutcome<ProjectConfigsResponse>)>::empty());
            assert(outcomes_of(rs.take(0)) =~= Seq::<CellOutcome<ProjectConfigsResponse>>::empty());
            reveal(Seq::filter);
        }
        while rest.len() > 0
            invariant
                total == rs.len(),
                i <= total,
                rest@ == rs.skip(i as int),
                bodies_wf(rs),
                pr == priority_view(cell_priority@),
                succeeded@ == rs.take(i as int).filter(
                    |x: (CellId, CellOutcome<ProjectConfigsResponse>)| is_succeeded(x),
                ),
                non_success@ == rs.take(i as int).filter(
                    |x: (CellId, CellOutcome<ProjectConfigsResponse>)| is_non_success(x),
                ),
                failed@ == rs.take(i as int).filter(
                    |x: (CellId, CellOutcome<ProjectConfigsResponse>)| is_failed(x),
                ),
                bodies_wf(succeeded@),
                match first {
                    Some(j) => first_success_outcome(outcomes_of(rs.take(i as int))) == Some(j as int),
                    None => first_success_outcome(outcomes_of(rs.take(i as int))) is None,
                },
                match best {
                    Some((p, k)) => {
                        &&& preferred_success(pr, rs.take(i as int)) == Some(best_at)
                        &&& 0 <= best_at < i
                        &&& readable_success(rs[best_at])
                        &&& k == rank(pr, rs[best_at].0@)
                        &&& p < succeeded@.len()
                        &&& succeeded@[p as int] == rs[best_at]
                    },
                    None => preferred_success(pr, rs.take(i as int)) is None,
                },
            decreases rest@.len(),
        {
            let item = rest.remove(0);
            proof {
                broadcast use Seq::lemma_filter_push;
                assert(rs.take(i + 1) =~= rs.take(i as int).push(rs[i as int]));
                assert(rest@ =~= rs.skip(i + 1));
                assert(item == rs[i as int]);
                assert(outcomes_of(rs.take(i + 1)).drop_last() =~= outcomes_of(rs.take(i as int)));
                assert(outcomes_of(rs.take(i + 1)).last() == rs[i as int].1);
                let os = outcomes_of(rs);
                assert(outcomes_of(rs.take(i as int)) =~= os.take(i as int));
                assert(outcomes_of(rs.take(i + 1)) =~= os.take(i + 1));
                if first.is_some() {
                    lemma_first_success_outcome_stable(os, i as int, i + 1);
                }
                assert(rs.take(i + 1).drop_last() =~= rs.take(i as int));
                assert(rs.take(i + 1)[i as int] == rs[i as int]);
                assert(best is Some ==> rs.take(i + 1)[best_at] == rs[best_at]);
            }
            match &item.1 {
                CellOutcome::Success(body) => {
                    if first.is_none() {
                        first = Some(i);
                    }
                    if body.is_some() {
                        let k = rank_of(&cell_priority, &item.0);
                        let better = match best {
                            Some((_, kb)) => k < kb,
                            None => true,
                        };
                        if better {
                            best = Some((succeeded.len(), k));
                            proof {
                                best_at = i as int;
                            }
                        }
                    }
                    succeeded.push(item);
                },
                CellOutcome::NonSuccess(_) => {
                    non_success.push(item);
                },
                CellOutcome::Failed => {
                    failed.push(item);
                },
            }
            i = i + 1;
        }
        proof {
            assert(rs.take(i as int) =~= rs);
            assert(bodies_wf(non_success@)) by {
                assert forall|k: int| 0 <= k < non_success@.len() implies !((#[trigger] non_success@[k]).1 is Success) by {
                    rs.lemma_filter_pred(|x: (CellId, CellOutcome<ProjectConfigsResponse>)| is_non_success(x), k);
                }
            }
            assert(bodies_wf(failed@)) by {
                assert forall|k: int| 0 <= k < failed@.len() implies !((#[trigger] failed@[k]).1 is Success) by {
                    rs.lemma_filter_pred(|x: (CellId, CellOutcome<ProjectConfigsResponse>)| is_failed(x), k);
                }
            }
        }
        let extra = match best {
            Some((p, _)) => match &succeeded[p].1 {
                CellOutcome::Success(Some(b)) => {
                    let e = b.extra_fields.clone();
                    proof {
                        lemma_clone_strings(b.extra_fields, e);
                    }
                    e
                },
                _ => StrMap::new(),
            },
            None => StrMap::new(),
        };
        assert(extra.wf() && extra@ == preferred_extra(pr, rs));
        fold_into(&mut acc, succeeded, &cell_to_keys);
        fold_into(&mut acc, non_success, &cell_to_keys);
        fold_into(&mut acc, failed, &cell_to_keys);
        acc.extra_fields = extra;
        match first {
            Some(f) => Ok((Some(f), acc)),
            None => if acc.pending_keys.len() > 0 {
                Ok((None, acc))
            } else {
                Err(SERVICE_UNAVAILABLE)
            },
        }
    }
}

/// A merge only adds: the pending keys keep their start, and every
/// config key stays.
pub proof fn lemma_merge_fold_grows(
    acc: MergeView,
    cell_keys: Map<Seq<char>, Vec<String>>,
    items: Seq<(CellId, CellOutcome<ProjectConfigsResponse>)>,
)
    ensures
        merge_fold(acc, cell_keys, items).pending.len() >= acc.pending.len(),
        merge_fold(acc, cell_keys, items).pending.take(acc.pending.len() as int) == acc.pending,
        forall|k: Seq<char>| #[trigger] acc.configs.contains_key(k) ==> merge_fold(acc, cell_keys, items).configs.contains_key(k),
    decreases items.len(),
{
    if items.len() > 0 {
        lemma_merge_fold_grows(acc, cell_keys, items.drop_last());
        let prev = merge_fold(acc, cell_keys, items.drop_last());
        let next = merge_fold(acc, cell_keys, items);
        assert(next.pending.take(prev.pending.len() as int) =~= prev.pending);
        assert(next.pending.take(acc.pending.len() as int) =~= prev.pending.take(acc.pending.len() as int));
    }
}

/// The keys of a failed request to a cell make a block of the pending
/// keys after the merge.
proof fn lemma_fold_failed_block(
    acc: MergeView,
    cell_keys: Map<Seq<char>, Vec<String>>,
    items: Seq<(CellId, CellOutcome<ProjectConfigsResponse>)>,
    j: int,
)
    requires
        0 <= j < items.len(),
        !readable_success(items[j]),
        cell_keys.contains_key(items[j].0@),
    ensures
        exists|p: int|
            0 <= p && p + cell_keys[items[j].0@]@.len() <= merge_fold(acc, cell_keys, items).pending.len()
                && #[trigger] merge_fold(acc, cell_keys, items).pending.subrange(p, p + cell_keys[items[j].0@]@.len()) == cell_keys[items[j].0@]@,
    decreases items.len(),
{
    let keys = cell_keys[items[j].0@]@;
    let prev = merge_fold(acc, cell_keys, items.drop_last());
    let next = merge_fold(acc, cell_keys, items);
    if j == items.len() - 1 {
        assert(next.pending == prev.pending + keys);
        assert(next.pending.subrange(prev.pending.len() as int, (prev.pending.len() + keys.len()) as int) =~= keys);
    } else {
        assert(items.drop_last()[j] == items[j]);
        lemma_fold_failed_block(acc, cell_keys, items.drop_last(), j);
        let p = choose|p: int|
            0 <= p && p + keys.len() <= prev.pending.len() && #[trigger] prev.pending.subrange(p, p + keys.len()) == keys;
        assert(next.pending.len() >= prev.pending.len());
        assert(next.pending.take(prev.pending.len() as int) =~= prev.pending);
        assert(next.pending.subrange(p, p + keys.len()) =~= prev.pending.subrange(p, p + keys.len()));
    }
}

/// The keys that could not be routed are answered as pending, first.
pub proof fn law_unassigned_keys_pending(meta: ProjectConfigsMetadata, rs: Seq<(CellId, CellOutcome<ProjectConfigsResponse>)>)
    ensures
        merged_view(meta, rs).pending.len() >= meta.unassigned_keys@.len(),
        merged_view(meta, rs).pending.take(meta.unassigned_keys@.len() as int) == meta.unassigned_keys@,
{
    let ck = meta.cell_to_keys@;
    let init = MergeView { configs: Map::empty(), extra: Map::empty(), pending: meta.unassigned_keys@ };
    let s = merge_fold(init, ck, rs.filter(|x: (CellId, CellOutcome<ProjectConfigsResponse>)| is_succeeded(x)));
    let n = merge_fold(s, ck, rs.filter(|x: (CellId, CellOutcome<ProjectConfigsResponse>)| is_non_success(x)));
    lemma_merge_fold_grows(init, ck, rs.filter(|x: (CellId, CellOutcome<ProjectConfigsResponse>)| is_succeeded(x)));
    lemma_merge_fold_grows(s, ck, rs.filter(|x: (CellId, CellOutcome<ProjectConfigsResponse>)| is_non_success(x)));
    lemma_merge_fold_grows(n, ck, rs.filter(|x: (CellId, CellOutcome<ProjectConfigsResponse>)| is_failed(x)));
    let f = merged_view(meta, rs);
    assert(f.pending.take(meta.unassigned_keys@.len() as int) =~= n.pending.take(s.pending.len() as int).take(meta.unassigned_keys@.len() as int));
    assert(n.pending.take(s.pending.len() as int).take(meta.unassigned_keys@.len() as int) =~= n.pending.take(meta.unassigned_keys@.len() as int));
    assert(n.pending.take(meta.unassigned_keys@.len() as int) =~= s.pending.take(meta.unassigned_keys@.len() as int));
}

/// The keys sent to a cell whose request failed (no answer, another
/// status than 2xx, or a body that could not be read) are answered as
/// pending, so the relay asks again.
pub proof fn law_failed_cell_keys_pending(meta: ProjectConfigsMetadata, rs: Seq<(CellId, CellOutcome<ProjectConfigsResponse>)>, i: int)
    requires
        0 <= i < rs.len(),
        !readable_success(rs[i]),
        meta.cell_to_keys@.contains_key(rs[i].0@),
    ensures
        exists|p: int|
            0 <= p && p + meta.cell_to_keys@[rs[i].0@]@.len() <= merged_view(meta, rs).pending.len()
                && #[trigger] merged_view(meta, rs).pending.subrange(p, p + meta.cell_to_keys@[rs[i].0@]@.len())
                == meta.cell_to_keys@[rs[i].0@]@,
{
    let ck = meta.cell_to_keys@;
    let keys = ck[rs[i].0@]@;
    let init = MergeView { configs: Map::empty(), extra: Map::empty(), pending: meta.unassigned_keys@ };
    let sf = rs.filter(|x: (CellId, CellOutcome<ProjectConfigsResponse>)| is_succeeded(x));
    let nf = rs.filter(|x: (CellId, CellOutcome<ProjectConfigsResponse>)| is_non_success(x));
    let ff = rs.filter(|x: (CellId, CellOutcome<ProjectConfigsResponse>)| is_failed(x));
    let s = merge_fold(init, ck, sf);
    let n = merge_fold(s, ck, nf);
    let f = merge_fold(n, ck, ff);
    assert(f.pending == merged_view(meta, rs).pending);
    if rs[i].1 is Success {
        rs.lemma_filter_contains(|x: (CellId, CellOutcome<ProjectConfigsResponse>)| is_succeeded(x), i);
        let j = choose|j: int| 0 <= j < sf.len() && sf[j] == rs[i];
        lemma_fold_failed_block(init, ck, sf, j);
        let p = choose|p: int| 0 <= p && p + keys.len() <= s.pending.len() && #[trigger] s.pending.subrange(p, p + keys.len()) == keys;
        lemma_merge_fold_grows(s, ck, nf);
        lemma_merge_fold_grows(n, ck, ff);
        assert(n.pending.subrange(p, p + keys.len()) =~= s.pending.subrange(p, p + keys.len()));
        assert(f.pending.subrange(p, p + keys.len()) =~= n.pending.subrange(p, p + keys.len()));
    } else if rs[i].1 is NonSuccess {
        rs.lemma_filter_contains(|x: (CellId, CellOutcome<ProjectConfigsResponse>)| is_non_success(x), i);
        let j = choose|j: int| 0 <= j < nf.len() && nf[j] == rs[i];
        lemma_fold_failed_block(s, ck, nf, j);
        let p = choose|p: int| 0 <= p && p + keys.len() <= n.pending.len() && #[trigger] n.pending.subrange(p, p + keys.len()) == keys;
        lemma_merge_fold_grows(n, ck, ff);
        assert(f.pending.subrange(p, p + keys.len()) =~= n.pending.subrange(p, p + keys.len()));
    } else {
        rs.lemma_filter_contains(|x: (CellId, CellOutcome<ProjectConfigsResponse>)| is_failed(x), i);
        let j = choose|j: int| 0 <= j < ff.len() && ff[j] == rs[i];
        lemma_fold_failed_block(n, ck, ff, j);
    }
}

proof fn lemma_fold_success_configs(
    acc: MergeView,
    cell_keys: Map<Seq<char>, Vec<String>>,
    items: Seq<(CellId, CellOutcome<ProjectConfigsResponse>)>,
    j: int,
    k: Seq<char>,
)
    requires
        0 <= j < items.len(),
        items[j].1 matches CellOutcome::Success(Some(b)) && b.project_configs@.contains_key(k),
    ensures
        merge_fold(acc, cell_keys, items).configs.contains_key(k),
    decreases items.len(),
{
    if j < items.len() - 1 {
        assert(items.drop_last()[j] == items[j]);
        lemma_fold_success_configs(acc, cell_keys, items.drop_last(), j, k);
    }
}

/// Every config a cell answered with is in the merged answer (for a key
/// several cells answered, the one merged last wins).
pub proof fn law_success_configs_kept(meta: ProjectConfigsMetadata, rs: Seq<(CellId, CellOutcome<ProjectConfigsResponse>)>, i: int, k: Seq<char>)
    requires
        0 <= i < rs.len(),
        rs[i].1 matches CellOutcome::Success(Some(b)) && b.project_configs@.contains_key(k),
    ensures
        merged_view(meta, rs).configs.contains_key(k),
{
    let ck = meta.cell_to_keys@;
    let init = MergeView { configs: Map::empty(), extra: Map::empty(), pending: meta.unassigned_keys@ };
    let sf = rs.filter(|x: (CellId, CellOutcome<ProjectConfigsResponse>)| is_succeeded(x));
    let nf = rs.filter(|x: (CellId, CellOutcome<ProjectConfigsResponse>)| is_non_success(x));
    let ff = rs.filter(|x: (CellId, CellOutcome<ProjectConfigsResponse>)| is_failed(x));
    let s = merge_fold(init, ck, sf);
    let n = merge_fold(s, ck, nf);
    rs.lemma_filter_contains(|x: (CellId, CellOutcome<ProjectConfigsResponse>)| is_succeeded(x), i);
    let j = choose|j: int| 0 <= j < sf.len() && sf[j] == rs[i];
    lemma_fold_success_configs(init, ck, sf, j, k);
    lemma_merge_fold_grows(s, ck, nf);
    lemma_merge_fold_grows(n, ck, ff);
}

/// The other fields of the merged answer come from the cell of highest
/// priority among those that answered readably: no readable success has a
/// cell of higher priority (nor, at equal priority, came earlier); and
/// when none answered readably there are no other fields.
pub proof fn law_extra_from_highest_priority(
    priority: Seq<Seq<char>>,
    rs: Seq<(CellId, CellOutcome<ProjectConfigsResponse>)>,
)
    ensures
        match preferred_success(priority, rs) {
            Some(i) => {
                &&& 0 <= i < rs.len()
                &&& readable_success(rs[i])
                &&& forall|j: int|
                    0 <= j < rs.len() && readable_success(#[trigger] rs[j]) ==> rank(priority, rs[i].0@)
                        < rank(priority, rs[j].0@) || (rank(priority, rs[i].0@) == rank(priority, rs[j].0@)
                        && i <= j)
            },
            None => forall|j: int| 0 <= j < rs.len() ==> !readable_success(#[trigger] rs[j]),
        },
        preferred_success(priority, rs) is None ==> preferred_extra(priority, rs) == Map::<Seq<char>, String>::empty(),
    decreases rs.len(),
{
    if rs.len() > 0 {
        let prev = rs.drop_last();
        law_extra_from_highest_priority(priority, prev);
        assert forall|j: int| 0 <= j < prev.len() implies prev[j] == rs[j] by {}
    }
}

/// When no cell succeeded, the merged answer has no configs and no other
/// fields: only pending keys.
pub proof fn law_total_failure_has_only_pending(
    meta: ProjectConfigsMetadata,
    rs: Seq<(CellId, CellOutcome<ProjectConfigsResponse>)>,
)
    requires
        forall|i: int| 0 <= i < rs.len() ==> !((#[trigger] rs[i]).1 is Success),
    ensures
        merged_view(meta, rs).configs == Map::<Seq<char>, String>::empty(),
        merged_view(meta, rs).extra == Map::<Seq<char>, String>::empty(),
{
    let ck = meta.cell_to_keys@;
    let init = MergeView { configs: Map::empty(), extra: Map::empty(), pending: meta.unassigned_keys@ };
    let sf = rs.filter(|x: (CellId, CellOutcome<ProjectConfigsResponse>)| is_succeeded(x));
    let nf = rs.filter(|x: (CellId, CellOutcome<ProjectConfigsResponse>)| is_non_success(x));
    let ff = rs.filter(|x: (CellId, CellOutcome<ProjectConfigsResponse>)| is_failed(x));
    assert(sf.len() == 0) by {
        if sf.len() > 0 {
            rs.lemma_filter_pred(|x: (CellId, CellOutcome<ProjectConfigsResponse>)| is_succeeded(x), 0);
            assert(sf.contains(sf[0]));
            rs.lemma_filter_contains_rev(|x: (CellId, CellOutcome<ProjectConfigsResponse>)| is_succeeded(x), sf[0]);
        }
    }
    let s = merge_fold(init, ck, sf);
    lemma_fold_keeps_configs_without_success(s, ck, nf);
    let n = merge_fold(s, ck, nf);
    lemma_fold_keeps_configs_without_success(n, ck, ff);
    assert forall|i: int| 0 <= i < nf.len() implies !((#[trigger] nf[i]).1 is Success) by {
        rs.lemma_filter_pred(|x: (CellId, CellOutcome<ProjectConfigsResponse>)| is_non_success(x), i);
    }
    assert forall|i: int| 0 <= i < ff.len() implies !((#[trigger] ff[i]).1 is Success) by {
        rs.lemma_filter_pred(|x: (CellId, CellOutcome<ProjectConfigsResponse>)| is_failed(x), i);
    }
    law_extra_from_highest_priority(priority_view(meta.cell_priority@), rs);
}

/// A merge of answers none of which succeeded leaves the configs as they
/// were.
proof fn lemma_fold_keeps_configs_without_success(
    acc: MergeView,
    cell_keys: Map<Seq<char>, Vec<String>>,
    items: Seq<(CellId, CellOutcome<ProjectConfigsResponse>)>,
)
    ensures
        (forall|i: int| 0 <= i < items.len() ==> !((#[trigger] items[i]).1 is Success)) ==> merge_fold(
            acc,
            cell_keys,
            items,
        ).configs == acc.configs,
    decreases items.len(),
{
    if items.len() > 0 {
        lemma_fold_keeps_configs_without_success(acc, cell_keys, items.drop_last());
        if forall|i: int| 0 <= i < items.len() ==> !((#[trigger] items[i]).1 is Success) {
            assert forall|i: int| 0 <= i < items.drop_last().len() implies !((#[trigger] items.drop_last()[i]).1 is Success) by {
                assert(items.drop_last()[i] == items[i]);
            }
            assert(!(items[items.len() - 1].1 is Success));
        }
    }
}

} // verus!
