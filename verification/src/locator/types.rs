//! The data the locator serves: which cell each id belongs to, and the
//! locality of each cell.

use crate::support::strmap::StrMap;
use vstd::prelude::*;

verus! {

pub type CellId = String;

/// A cell and the locality it belongs to.
#[derive(Debug, PartialEq, Eq)]
pub struct Cell {
    pub id: String,
    pub locality: String,
}

impl Clone for Cell {
    fn clone(&self) -> (c: Self)
        ensures
            c == *self,
    {
        Cell { id: self.id.clone(), locality: self.locality.clone() }
    }
}

impl Cell {
    pub fn new(id: String, locality: String) -> (c: Self)
        ensures
            c.id == id,
            c.locality == locality,
    {
        Cell { id, locality }
    }
}

/// The route data: id to cell id, the cursor of the last change seen, and
/// the cells by id.
#[derive(Debug, PartialEq, Eq)]
pub struct RouteData {
    pub id_to_cell: StrMap<CellId>,
    pub last_cursor: String,
    pub cells: StrMap<Cell>,
}

impl RouteData {
    pub open spec fn wf(&self) -> bool {
        self.id_to_cell.wf() && self.cells.wf()
    }

    /// Builds route data from the control plane's answer: the id to cell
    /// mapping, the last cursor, and each cell's locality. Each cell is
    /// recorded under its own id.
    pub fn from(id_to_cell: StrMap<CellId>, last_cursor: String, cell_to_locality: StrMap<String>) -> (r: Self)
        requires
            id_to_cell.wf(),
            cell_to_locality.wf(),
        ensures
            r.wf(),
            r.id_to_cell == id_to_cell,
            r.last_cursor == last_cursor,
            r.cells@.dom() == cell_to_locality@.dom(),
            forall|k: Seq<char>|
                #[trigger] r.cells@.contains_key(k) ==> r.cells@[k].id@ == k
                    && r.cells@[k].locality == cell_to_locality@[k],
    {
        let mut cells: StrMap<Cell> = StrMap::new();
        let n = cell_to_locality.len();
        let mut i: usize = 0;
        while i < n
            invariant
                n == cell_to_locality.key_seq().len(),
                cell_to_locality.wf(),
                i <= n,
                cells.wf(),
                cells@.dom() == cell_to_locality.key_seq().take(i as int).to_set(),
                forall|k: Seq<char>|
                    #[trigger] cells@.contains_key(k) ==> cells@[k].id@ == k
                        && cells@[k].locality == cell_to_locality@[k],
            decreases n - i,
        {
            let id = cell_to_locality.key_at(i);
            let locality = cell_to_locality.value_at(i);
            proof {
                cell_to_locality.lemma_index(i as int);
            }
            cells.insert(id.clone(), Cell { id: id.clone(), locality: locality.clone() });
            assert(cell_to_locality.key_seq().take(i + 1) =~= cell_to_locality.key_seq().take(
                i as int,
            ).push(id@));
            proof {
                broadcast use vstd::seq_lib::lemma_seq_contains_after_push;
                let t = cell_to_locality.key_seq().take(i as int);
                assert forall|q: Seq<char>| t.push(id@).contains(q) <==> (t.contains(q) || q == id@) by {
                    if t.push(id@).contains(q) && q != id@ {
                        let j = choose|j: int| 0 <= j < t.push(id@).len() && t.push(id@)[j] == q;
                        assert(t[j] == q);
                    }
                }
                assert(cells@.dom() =~= t.push(id@).to_set());
            }
            i = i + 1;
        }
        proof {
            cell_to_locality.lemma_dom();
            assert(cell_to_locality.key_seq().take(n as int) =~= cell_to_locality.key_seq());
        }
        RouteData { id_to_cell, last_cursor, cells }
    }
}

} // verus!
