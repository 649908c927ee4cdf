//! Organization to cell mapping held as cells directly, with a default cell
//! per locality. A lookup answers the organization's cell, or the default
//! cell of the requested locality, or nothing.

use crate::locator::types::Cell;
use crate::support::strmap::StrMap;
use vstd::prelude::*;

verus! {

/// Why a lookup failed.
#[derive(Debug, PartialEq, Eq)]
pub enum LookupError {
    /// The organization's cell belongs to another locality.
    LocalityMismatch { requested: String, actual: String },
    /// No mapping has been loaded yet.
    NotReady(String),
}

/// The state of the mapping.
pub struct OrgToCell {
    pub mapping: StrMap<Cell>,
    pub locality_to_default_cell: StrMap<Cell>,
    pub last_cursor: Option<String>,
    pub ready: bool,
}

/// The answer of a lookup: `Err((requested, actual))` for a locality
/// mismatch, else the cell found, if any.
pub open spec fn mapping_lookup(
    mapping: Map<Seq<char>, Cell>,
    defaults: Map<Seq<char>, Cell>,
    org: Seq<char>,
    locality: Option<Seq<char>>,
) -> Result<Option<Cell>, (Seq<char>, Seq<char>)> {
    if mapping.contains_key(org) {
        let cell = mapping[org];
        match locality {
            Some(l) => if cell.locality@ != l {
                Err((l, cell.locality@))
            } else {
                Ok(Some(cell))
            },
            None => Ok(Some(cell)),
        }
    } else {
        match locality {
            Some(l) => if defaults.contains_key(l) {
                Ok(Some(defaults[l]))
            } else {
                Ok(None)
            },
            None => Ok(None),
        }
    }
}

impl OrgToCell {
    pub open spec fn wf(&self) -> bool {
        self.mapping.wf() && self.locality_to_default_cell.wf()
    }

    /// An empty mapping, not ready.
    pub fn new() -> (s: Self)
        ensures
            s.wf(),
            s.mapping@ == Map::<Seq<char>, Cell>::empty(),
            s.locality_to_default_cell@ == Map::<Seq<char>, Cell>::empty(),
            s.last_cursor is None,
            !s.ready,
    {
        OrgToCell {
            mapping: StrMap::new(),
            locality_to_default_cell: StrMap::new(),
            last_cursor: None,
            ready: false,
        }
    }

    /// Replaces the mapping with a loaded snapshot and records its cursor.
    pub fn install_snapshot(&mut self, mapping: StrMap<Cell>, last_cursor: String)
        requires
            old(self).wf(),
            mapping.wf(),
        ensures
            final(self).wf(),
            final(self).mapping == mapping,
            final(self).last_cursor == Some(last_cursor),
            final(self).locality_to_default_cell == old(self).locality_to_default_cell,
            final(self).ready == old(self).ready,
    {
        self.mapping = mapping;
        self.last_cursor = Some(last_cursor);
    }

    /// Looks up the cell of an organization; see `mapping_lookup`.
    pub fn lookup(&self, org_id: &str, locality: Option<&str>) -> (r: Result<Option<Cell>, LookupError>)
        requires
            self.wf(),
        ensures
            match (r, mapping_lookup(
                self.mapping@,
                self.locality_to_default_cell@,
                org_id@,
                match locality {
                    Some(l) => Some(l@),
                    None => None,
                },
            )) {
                (Ok(c), Ok(cv)) => c == cv,
                (Err(LookupError::LocalityMismatch { requested, actual }), Err((rq, ac))) => requested@
                    == rq && actual@ == ac,
                _ => false,
            },
    {
        match self.mapping.get(org_id) {
            Some(cell) => {
                match locality {
                    Some(loc) => {
                        if cell.locality != loc.to_owned() {
                            return Err(
                                LookupError::LocalityMismatch {
                                    requested: loc.to_owned(),
                                    actual: cell.locality.clone(),
                                },
                            );
                        }
                    },
                    None => {},
                }
                Ok(Some(cell.clone()))
            },
            None => {
                match locality {
                    Some(loc) => match self.locality_to_default_cell.get(loc) {
                        Some(default_cell) => Ok(Some(default_cell.clone())),
                        None => Ok(None),
                    },
                    None => Ok(None),
                }
            },
        }
    }
}

} // verus!
