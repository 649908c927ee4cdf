//! Routing of public keys to the cells that own them, keeping only cells
//! of the current locality. The locator is asked outside; its answers
//! come in as arguments.

use crate::ingest_router::api::project_config::{grouped_keys, unrouted_keys};
use crate::ingest_router::locale::Cells;
use crate::support::strmap::StrMap;
use vstd::prelude::*;

verus! {

/// The routes that count: a cell the locality does not configure counts
/// as no route.
pub open spec fn configured_routes(routes: Seq<Option<String>>, cells: Map<Seq<char>, crate::ingest_router::locale::Upstream>) -> Seq<Option<String>> {
    routes.map_values(|r: Option<String>| match r {
        Some(c) => if cells.contains_key(c@) {
            Some(c)
        } else {
            None
        },
        None => None,
    })
}

/// Routes public keys to the cells that own them.
pub struct PublicKeySplitter {}

impl PublicKeySplitter {
    pub fn new() -> (s: Self) {
        PublicKeySplitter {  }
    }

    /// Groups the keys by owning cell (`routes[i]` is the locator's answer
    /// for `public_keys[i]`, `None` on error); keys whose cell is unknown
    /// or not configured here are pending. With no cells, every key is
    /// pending.
    pub fn split(&self, public_keys: Vec<String>, routes: Vec<Option<String>>, cells: &Cells) -> (r: (
        StrMap<Vec<String>>,
        Vec<String>,
    ))
        requires
            public_keys@.len() == routes@.len(),
            cells.wf(),
        ensures
            r.0.wf(),
            cells.cell_order().len() == 0 ==> r.0@ == Map::<Seq<char>, Vec<String>>::empty() && r.1@ == public_keys@,
            cells.cell_order().len() > 0 ==> {
                &&& r.0@.dom() == grouped_keys(public_keys@, configured_routes(routes@, cells.upstreams())).dom()
                &&& forall|c: Seq<char>| #[trigger] r.0@.contains_key(c) ==> r.0@[c]@ == grouped_keys(
                    public_keys@,
                    configured_routes(routes@, cells.upstreams()),
                )[c]
                &&& r.1@ == unrouted_keys(public_keys@, configured_routes(routes@, cells.upstreams()))
            },
    {
        if cells.len() == 0 {
            let m: StrMap<Vec<String>> = StrMap::new();
            return (m, public_keys);
        }
        let ghost ks = public_keys@;
        let ghost rs = configured_routes(routes@, cells.upstreams());
        let mut split: StrMap<Vec<String>> = StrMap::new();
        let mut pending: Vec<String> = Vec::new();
        let mut i: usize = 0;
        while i < public_keys.len()
            invariant
                i <= ks.len(),
                ks.len() == rs.len(),
                ks == public_keys@,
                rs == configured_routes(routes@, cells.upstreams()),
                routes@.len() == ks.len(),
                cells.wf(),
                split.wf(),
                split@.dom() == grouped_keys(ks.take(i as int), rs.take(i as int)).dom(),
                forall|c: Seq<char>| #[trigger]
                    split@.contains_key(c) ==> split@[c]@ == grouped_keys(ks.take(i as int), rs.take(i as int))[c],
                pending@ == unrouted_keys(ks.take(i as int), rs.take(i as int)),
            decreases ks.len() - i,
        {
            proof {
                assert(ks.take(i + 1).drop_last() =~= ks.take(i as int));
                assert(rs.take(i + 1).drop_last() =~= rs.take(i as int));
                assert(ks.take(i + 1).last() == ks[i as int]);
                assert(rs.take(i + 1).last() == rs[i as int]);
            }
            let key = public_keys[i].clone();
            let configured = match &routes[i] {
                Some(c) => if cells.contains_cell(c.as_str()) {
                    Some(c.clone())
                } else {
                    None
                },
                None => None,
            };
            assert(configured == rs[i as int]);
            match configured {
                Some(c) => {
                    split.push_to(c, key);
                    proof {
                        let g = grouped_keys(ks.take(i + 1), rs.take(i + 1));
                        assert(split@.dom() =~= g.dom());
                    }
                },
                None => {
                    pending.push(key);
                },
            }
            i = i + 1;
        }
        proof {
            assert(ks.take(i as int) =~= ks);
            assert(rs.take(i as int) =~= rs);
        }
        (split, pending)
    }
}

} // verus!
