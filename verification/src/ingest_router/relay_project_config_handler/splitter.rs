//! Distribution of public keys over the cells of a locality, one request
//! per cell. Keys go to the cells in turn, in the cells' order.

use crate::ingest_router::locale::{Cells, Upstream};
use crate::ingest_router::relay_project_config_handler::protocol::ProjectConfigsRequest;
use crate::support::strmap::{lemma_clone_strings, StrMap};
use vstd::prelude::*;

verus! {

/// A request for one cell.
pub struct SplitRequest {
    pub cell_name: String,
    pub upstream: Upstream,
    pub request: ProjectConfigsRequest,
}

/// Routes public keys to cells.
pub struct PublicKeyRouter {}

/// The keys given to each cell when key `i` goes to cell `i` modulo the
/// number of cells, each list in request order.
pub open spec fn round_robin_groups(keys: Seq<String>, cells: Seq<Seq<char>>) -> Map<
    Seq<char>,
    Seq<String>,
>
    decreases keys.len(),
{
    if keys.len() == 0 || cells.len() == 0 {
        Map::empty()
    } else {
        let g = round_robin_groups(keys.drop_last(), cells);
        let c = cells[(keys.len() - 1) % (cells.len() as int)];
        g.insert(c, if g.contains_key(c) { g[c].push(keys.last()) } else { seq![keys.last()] })
    }
}

impl PublicKeyRouter {
    pub fn new() -> (r: Self) {
        PublicKeyRouter {  }
    }

    /// One request per cell that gets keys: its keys, the other fields of
    /// the inbound request, and the cell's upstream. No cells, no requests.
    pub fn split(&self, request: &ProjectConfigsRequest, cells: &Cells) -> (r: Vec<SplitRequest>)
        requires
            cells.wf(),
        ensures
            r@.map_values(|s: SplitRequest| s.cell_name@).no_duplicates(),
            r@.map_values(|s: SplitRequest| s.cell_name@).to_set() == round_robin_groups(
                request.public_keys@,
                cells.cell_order(),
            ).dom(),
            forall|i: int|
                0 <= i < r@.len() ==> {
                    &&& (#[trigger] r@[i]).request.public_keys@ == round_robin_groups(
                        request.public_keys@,
                        cells.cell_order(),
                    )[r@[i].cell_name@]
                    &&& cells.upstreams().contains_key(r@[i].cell_name@)
                    &&& r@[i].upstream == cells.upstreams()[r@[i].cell_name@]
                    &&& r@[i].request.extra_fields@ == request.extra_fields@
                    &&& (request.extra_fields.wf() ==> r@[i].request.extra_fields.wf())
                },
    {
        let n = cells.len();
        let ghost cl = cells.cell_order();
        let ghost ks = request.public_keys@;
        let mut groups: StrMap<Vec<String>> = StrMap::new();
        if n > 0 {
            let mut i: usize = 0;
            while i < request.public_keys.len()
                invariant
                    n == cl.len(),
                    n > 0,
                    cl == cells.cell_order(),
                    cells.wf(),
                    i <= ks.len(),
                    ks == request.public_keys@,
                    groups.wf(),
                    groups@.dom() == round_robin_groups(ks.take(i as int), cl).dom(),
                    forall|c: Seq<char>| #[trigger]
                        groups@.contains_key(c) ==> groups@[c]@ == round_robin_groups(
                            ks.take(i as int),
                            cl,
                        )[c] && cells.upstreams().contains_key(c),
                decreases ks.len() - i,
            {
                proof {
                    assert(ks.take(i + 1).drop_last() =~= ks.take(i as int));
                    assert(ks.take(i + 1).last() == ks[i as int]);
                    cells.lemma_index((i % n) as int);
                }
                let name = cells.cell_at(i % n).clone();
                groups.push_to(name, request.public_keys[i].clone());
                proof {
                    let g = round_robin_groups(ks.take(i + 1), cl);
                    assert(groups@.dom() =~= g.dom());
                }
                i = i + 1;
            }
            proof {
                assert(ks.take(i as int) =~= ks);
            }
        } else {
            assert(groups@.dom() =~= round_robin_groups(ks, cl).dom());
        }
        let m = groups.len();
        let mut out: Vec<SplitRequest> = Vec::new();
        let mut j: usize = 0;
        while j < m
            invariant
                m == groups.key_seq().len(),
                j <= m,
                groups.wf(),
                cells.wf(),
                groups@.dom() == round_robin_groups(ks, cl).dom(),
                ks == request.public_keys@,
                cl == cells.cell_order(),
                forall|c: Seq<char>| #[trigger]
                    groups@.contains_key(c) ==> groups@[c]@ == round_robin_groups(ks, cl)[c]
                        && cells.upstreams().contains_key(c),
                out@.len() == j,
                forall|t: int|
                    0 <= t < j ==> (#[trigger] out@[t]).cell_name@ == groups.key_seq()[t],
                forall|t: int|
                    0 <= t < j ==> {
                        &&& (#[trigger] out@[t]).request.public_keys@ == round_robin_groups(ks, cl)[out@[t].cell_name@]
                        &&& cells.upstreams().contains_key(out@[t].cell_name@)
                        &&& out@[t].upstream == cells.upstreams()[out@[t].cell_name@]
                        &&& out@[t].request.extra_fields@ == request.extra_fields@
                        &&& (request.extra_fields.wf() ==> out@[t].request.extra_fields.wf())
                    },
            decreases m - j,
        {
            proof {
                groups.lemma_index(j as int);
            }
            let name = groups.key_at(j).clone();
            let keys = clone_key_list(groups.value_at(j));
            let upstream = match cells.get_upstream(name.as_str()) {
                Some(u) => u.clone(),
                None => {
                    assert(false);
                    Upstream { relay_url: String::new(), sentry_url: String::new() }
                },
            };
            let extra = request.extra_fields.clone();
            proof {
                lemma_clone_strings(request.extra_fields, extra);
            }
            out.push(
                SplitRequest {
                    cell_name: name,
                    upstream,
                    request: ProjectConfigsRequest { public_keys: keys, extra_fields: extra },
                },
            );
            j = j + 1;
        }
        proof {
            let names = out@.map_values(|s: SplitRequest| s.cell_name@);
            assert(names =~= groups.key_seq());
            groups.lemma_dom();
            groups.lemma_keys_distinct();
        }
        out
    }
}

impl Default for PublicKeyRouter {
    fn default() -> (r: Self) {
        PublicKeyRouter::new()
    }
}

/// A copy of a list of keys.
fn clone_key_list(v: &Vec<String>) -> (r: Vec<String>)
    ensures
        r@ == v@,
{
    let mut r: Vec<String> = Vec::new();
    let mut i: usize = 0;
    while i < v.len()
        invariant
            i <= v@.len(),
            r@ == v@.take(i as int),
        decreases v@.len() - i,
    {
        r.push(v[i].clone());
        assert(v@.take(i + 1) =~= v@.take(i as int).push(v@[i as int]));
        i = i + 1;
    }
    assert(v@.take(v@.len() as int) =~= v@);
    r
}

/// Every key is sent, to the cell whose turn it is: key `i` goes to
/// cell `i` modulo the number of cells.
pub proof fn law_round_robin_places_every_key(keys: Seq<String>, cells: Seq<Seq<char>>, i: int)
    requires
        cells.len() > 0,
        0 <= i < keys.len(),
    ensures
        round_robin_groups(keys, cells).contains_key(cells[i % (cells.len() as int)]),
        round_robin_groups(keys, cells)[cells[i % (cells.len() as int)]].contains(keys[i]),
    decreases keys.len(),
{
    let c = cells[i % (cells.len() as int)];
    let g = round_robin_groups(keys.drop_last(), cells);
    let last_cell = cells[(keys.len() - 1) % (cells.len() as int)];
    if i == keys.len() - 1 {
        if g.contains_key(c) {
            assert(g[c].push(keys.last())[g[c].len() as int] == keys[i]);
        } else {
            assert(seq![keys.last()][0] == keys[i]);
        }
    } else {
        assert(keys.drop_last()[i] == keys[i]);
        law_round_robin_places_every_key(keys.drop_last(), cells, i);
        let j = choose|j: int| 0 <= j < g[c].len() && g[c][j] == keys[i];
        if last_cell == c {
            assert(g[c].push(keys.last())[j] == keys[i]);
        }
    }
}

} // verus!
