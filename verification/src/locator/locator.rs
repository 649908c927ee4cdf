//! Organization to cell lookup over the loaded route data.
//!
//! A lookup answers with the cell of the organization, or, for an unknown
//! organization, the default cell of the requested locality. When a
//! locality is requested, the cell found must belong to it.

use crate::locator::types::{Cell, RouteData};
use crate::support::strmap::StrMap;
use vstd::prelude::*;

verus! {

/// Why a lookup failed.
#[derive(Debug, PartialEq, Eq)]
pub enum LocatorError {
    /// No cell for the organization, and no default for the locality.
    NoCell,
    /// The cell found belongs to another locality than the one requested.
    LocalityMismatch { requested: String, actual: String },
    /// No route data has been loaded yet.
    NotReady,
    /// The route data names a cell it does not describe.
    InternalError,
}

pub enum LocatorErrorView {
    NoCell,
    LocalityMismatch { requested: Seq<char>, actual: Seq<char> },
    NotReady,
    InternalError,
}

impl LocatorError {
    pub open spec fn view(&self) -> LocatorErrorView {
        match self {
            LocatorError::NoCell => LocatorErrorView::NoCell,
            LocatorError::LocalityMismatch { requested, actual } => LocatorErrorView::LocalityMismatch {
                requested: requested@,
                actual: actual@,
            },
            LocatorError::NotReady => LocatorErrorView::NotReady,
            LocatorError::InternalError => LocatorErrorView::InternalError,
        }
    }

    /// The HTTP status the locator API answers this error with.
    pub fn status_code(&self) -> (s: u16)
        ensures
            s == match self {
                LocatorError::NoCell => 404u16,
                LocatorError::LocalityMismatch { .. } => 404u16,
                LocatorError::NotReady => 503u16,
                LocatorError::InternalError => 500u16,
            },
    {
        match self {
            LocatorError::NoCell => 404,
            LocatorError::LocalityMismatch { .. } => 404,
            LocatorError::NotReady => 503,
            LocatorError::InternalError => 500,
        }
    }

    /// The error's message.
    pub fn message(&self) -> (m: String)
        ensures
            m@ == match self {
                LocatorError::NoCell => "no cell found for organization"@,
                LocatorError::LocalityMismatch { .. } => "requested locality does not match the cell's locality"@,
                LocatorError::NotReady => "the locator is not ready yet"@,
                LocatorError::InternalError => "internal error"@,
            },
    {
        match self {
            LocatorError::NoCell => "no cell found for organization".to_owned(),
            LocatorError::LocalityMismatch { .. } => "requested locality does not match the cell's locality".to_owned(),
            LocatorError::NotReady => "the locator is not ready yet".to_owned(),
            LocatorError::InternalError => "internal error".to_owned(),
        }
    }
}

pub open spec fn opt_seq(o: Option<&str>) -> Option<Seq<char>> {
    match o {
        Some(s) => Some(s@),
        None => None,
    }
}

/// The cell id a lookup starts from: the organization's own cell, or the
/// default cell of the requested locality.
pub open spec fn cell_id_for(
    id_to_cell: Map<Seq<char>, String>,
    defaults: Map<Seq<char>, String>,
    org: Seq<char>,
    locality: Option<Seq<char>>,
) -> Option<Seq<char>> {
    if id_to_cell.contains_key(org) {
        Some(id_to_cell[org]@)
    } else {
        match locality {
            Some(l) => if defaults.contains_key(l) {
                Some(defaults[l]@)
            } else {
                None
            },
            None => None,
        }
    }
}

/// The answer to a lookup.
pub open spec fn lookup_spec(
    ready: bool,
    id_to_cell: Map<Seq<char>, String>,
    cells: Map<Seq<char>, Cell>,
    defaults: Map<Seq<char>, String>,
    org: Seq<char>,
    locality: Option<Seq<char>>,
) -> Result<Seq<char>, LocatorErrorView> {
    if !ready {
        Err(LocatorErrorView::NotReady)
    } else {
        match cell_id_for(id_to_cell, defaults, org, locality) {
            None => Err(LocatorErrorView::NoCell),
            Some(cid) => if !cells.contains_key(cid) {
                Err(LocatorErrorView::InternalError)
            } else {
                let cell = cells[cid];
                match locality {
                    Some(l) => if cell.locality@ != l {
                        Err(LocatorErrorView::LocalityMismatch { requested: l, actual: cell.locality@ })
                    } else {
                        Ok(cell.id@)
                    },
                    None => Ok(cell.id@),
                }
            },
        }
    }
}

/// The state behind a locator: the loaded route data, the default cell of
/// each locality, and whether any data has been loaded.
pub struct OrgToCell {
    pub locality_to_default_cell: StrMap<String>,
    pub data: RouteData,
    pub ready: bool,
}

impl OrgToCell {
    pub open spec fn wf(&self) -> bool {
        self.locality_to_default_cell.wf() && self.data.wf()
    }

    /// Answer of a lookup on this state.
    pub open spec fn answer(&self, org: Seq<char>, locality: Option<Seq<char>>) -> Result<Seq<char>, LocatorErrorView> {
        lookup_spec(
            self.ready,
            self.data.id_to_cell@,
            self.data.cells@,
            self.locality_to_default_cell@,
            org,
            locality,
        )
    }

    /// A state with no data yet, not ready.
    pub fn new(locality_to_default_cell: Option<StrMap<String>>) -> (s: Self)
        requires
            locality_to_default_cell matches Some(m) ==> m.wf(),
        ensures
            s.wf(),
            !s.ready,
            s.data.id_to_cell@ == Map::<Seq<char>, String>::empty(),
            s.data.cells@ == Map::<Seq<char>, Cell>::empty(),
            s.data.last_cursor@ == Seq::<char>::empty(),
            match locality_to_default_cell {
                Some(m) => s.locality_to_default_cell@ == m@,
                None => s.locality_to_default_cell@ == Map::<Seq<char>, String>::empty(),
            },
    {
        OrgToCell {
            locality_to_default_cell: match locality_to_default_cell {
                Some(m) => m,
                None => StrMap::new(),
            },
            data: RouteData { id_to_cell: StrMap::new(), last_cursor: String::new(), cells: StrMap::new() },
            ready: false,
        }
    }

    /// Replaces the route data with a newly loaded snapshot.
    pub fn install_snapshot(&mut self, route_data: RouteData)
        requires
            old(self).wf(),
            route_data.wf(),
        ensures
            final(self).wf(),
            final(self).data == route_data,
            final(self).ready == old(self).ready,
            final(self).locality_to_default_cell == old(self).locality_to_default_cell,
    {
        self.data = route_data;
    }

    /// Marks the state ready: lookups are answered from now on.
    pub fn mark_ready(&mut self)
        ensures
            final(self).ready,
            final(self).data == old(self).data,
            final(self).locality_to_default_cell == old(self).locality_to_default_cell,
    {
        self.ready = true;
    }

    /// Looks up the cell of an organization; see `lookup_spec`.
    pub fn lookup(&self, org_id: &str, locality: Option<&str>) -> (r: Result<String, LocatorError>)
        requires
            self.wf(),
        ensures
            match (r, self.answer(org_id@, opt_seq(locality))) {
                (Ok(c), Ok(cv)) => c@ == cv,
                (Err(e), Err(ev)) => e@ == ev,
                _ => false,
            },
    {
        if !self.ready {
            return Err(LocatorError::NotReady);
        }
        let cell_id = match self.data.id_to_cell.get(org_id) {
            Some(c) => c,
            None => match locality {
                Some(loc) => match self.locality_to_default_cell.get(loc) {
                    Some(c) => c,
                    None => {
                        return Err(LocatorError::NoCell);
                    },
                },
                None => {
                    return Err(LocatorError::NoCell);
                },
            },
        };
        let cell = match self.data.cells.get(cell_id.as_str()) {
            Some(c) => c,
            None => {
                return Err(LocatorError::InternalError);
            },
        };
        match locality {
            Some(requested) => {
                if cell.locality != requested.to_owned() {
                    return Err(
                        LocatorError::LocalityMismatch {
                            requested: requested.to_owned(),
                            actual: cell.locality.clone(),
                        },
                    );
                }
            },
            None => {},
        }
        Ok(cell.id.clone())
    }
}

/// Before any data is loaded, every lookup answers `NotReady`.
pub proof fn law_lookup_not_ready(s: OrgToCell, org: Seq<char>, locality: Option<Seq<char>>)
    requires
        !s.ready,
    ensures
        s.answer(org, locality) == Err::<Seq<char>, LocatorErrorView>(LocatorErrorView::NotReady),
{
}

/// Once data is loaded, an organization mapped to a described cell is
/// answered with that cell, when no locality or the cell's own locality is
/// requested.
pub proof fn law_lookup_known_org(s: OrgToCell, org: Seq<char>, locality: Option<Seq<char>>)
    requires
        s.ready,
        s.data.id_to_cell@.contains_key(org),
        s.data.cells@.contains_key(s.data.id_to_cell@[org]@),
        locality matches Some(l) ==> s.data.cells@[s.data.id_to_cell@[org]@].locality@ == l,
    ensures
        s.answer(org, locality) == Ok::<Seq<char>, LocatorErrorView>(
            s.data.cells@[s.data.id_to_cell@[org]@].id@,
        ),
{
}

/// The default cell of a locality is used only for organizations that are
/// not mapped.
pub proof fn law_lookup_default_only_for_unknown(s: OrgToCell, org: Seq<char>, l: Seq<char>)
    requires
        s.ready,
        !s.data.id_to_cell@.contains_key(org),
        s.locality_to_default_cell@.contains_key(l),
        s.data.cells@.contains_key(s.locality_to_default_cell@[l]@),
        s.data.cells@[s.locality_to_default_cell@[l]@].locality@ == l,
    ensures
        s.answer(org, Some(l)) == Ok::<Seq<char>, LocatorErrorView>(
            s.data.cells@[s.locality_to_default_cell@[l]@].id@,
        ),
        s.answer(org, None) == Err::<Seq<char>, LocatorErrorView>(LocatorErrorView::NoCell),
{
}

/// A successful lookup with a requested locality always answers a cell of
/// that locality.
pub proof fn law_lookup_respects_locality(s: OrgToCell, org: Seq<char>, l: Seq<char>)
    requires
        s.answer(org, Some(l)) is Ok,
    ensures
        exists|cid: Seq<char>|
            s.data.cells@.contains_key(cid) && s.data.cells@[cid].locality@ == l
                && s.data.cells@[cid].id@ == s.answer(org, Some(l))->Ok_0,
{
    let cid = cell_id_for(s.data.id_to_cell@, s.locality_to_default_cell@, org, Some(l))->Some_0;
    assert(s.data.cells@.contains_key(cid));
}

/// A mapped organization is answered only with its own cell, never with a
/// locality's default cell: any successful answer is the cell it is mapped
/// to.
pub proof fn law_lookup_mapped_org_own_cell_only(s: OrgToCell, org: Seq<char>, locality: Option<Seq<char>>)
    requires
        s.data.id_to_cell@.contains_key(org),
    ensures
        s.answer(org, locality) is Ok ==> s.data.cells@.contains_key(s.data.id_to_cell@[org]@)
            && s.answer(org, locality)->Ok_0 == s.data.cells@[s.data.id_to_cell@[org]@].id@,
{
}

/// A mapped organization whose cell belongs to another locality than the
/// one requested is refused with a locality mismatch that names both
/// localities, even when the requested locality has a default cell.
pub proof fn law_lookup_mapped_org_other_locality(s: OrgToCell, org: Seq<char>, l: Seq<char>)
    requires
        s.ready,
        s.data.id_to_cell@.contains_key(org),
        s.data.cells@.contains_key(s.data.id_to_cell@[org]@),
        s.data.cells@[s.data.id_to_cell@[org]@].locality@ != l,
    ensures
        s.answer(org, Some(l)) == Err::<Seq<char>, LocatorErrorView>(
            LocatorErrorView::LocalityMismatch {
                requested: l,
                actual: s.data.cells@[s.data.id_to_cell@[org]@].locality@,
            },
        ),
{
}

/// Why route data could not be loaded.
#[derive(Debug, PartialEq, Eq)]
pub enum LoadError {
    /// The backup copy could not be read either; the text says why.
    BackupError(String),
    /// Another load is in progress.
    ConcurrentLoad,
    ControlPlaneError(crate::locator::control_plane::ControlPlaneError),
}

/// A command for the loader.
#[derive(Debug, PartialEq, Eq)]
pub enum Command {
    Refresh,
    Shutdown,
}

impl OrgToCell {
    /// Loads a snapshot: the control plane's data when it answered,
    /// otherwise the backup copy (`backup`, read only then); neither is an
    /// error and the data stays as it was.
    pub fn load_snapshot(
        &mut self,
        control_plane: Result<RouteData, crate::locator::control_plane::ControlPlaneError>,
        backup: Option<Result<RouteData, String>>,
    ) -> (r: Result<(), LoadError>)
        requires
            old(self).wf(),
            control_plane matches Ok(d) ==> d.wf(),
            backup matches Some(Ok(d)) ==> d.wf(),
        ensures
            final(self).wf(),
            final(self).ready == old(self).ready,
            final(self).locality_to_default_cell == old(self).locality_to_default_cell,
            match control_plane {
                Ok(d) => r is Ok && final(self).data == d,
                Err(_) => match backup {
                    Some(Ok(d)) => r is Ok && final(self).data == d,
                    Some(Err(m)) => r == Err::<(), LoadError>(LoadError::BackupError(m)) && final(self).data == old(self).data,
                    None => (r matches Err(LoadError::BackupError(m)) && m@.len() == 0) && final(self).data == old(self).data,
                },
            },
    {
        match control_plane {
            Ok(d) => {
                self.install_snapshot(d);
                Ok(())
            },
            Err(_) => match backup {
                Some(Ok(d)) => {
                    self.install_snapshot(d);
                    Ok(())
                },
                Some(Err(m)) => Err(LoadError::BackupError(m)),
                None => Err(LoadError::BackupError(String::new())),
            },
        }
    }

    /// Starts answering: after the first snapshot is loaded, lookups are
    /// answered. A failed load leaves the state not ready.
    pub fn start(
        &mut self,
        control_plane: Result<RouteData, crate::locator::control_plane::ControlPlaneError>,
        backup: Option<Result<RouteData, String>>,
    ) -> (r: Result<(), LoadError>)
        requires
            old(self).wf(),
            control_plane matches Ok(d) ==> d.wf(),
            backup matches Some(Ok(d)) ==> d.wf(),
        ensures
            final(self).wf(),
            final(self).ready == (r is Ok || old(self).ready),
            final(self).locality_to_default_cell == old(self).locality_to_default_cell,
            r is Ok <==> (control_plane is Ok || backup matches Some(Ok(_))),
            control_plane matches Ok(d) ==> final(self).data == d,
            control_plane is Err ==> (backup matches Some(Ok(d)) ==> final(self).data == d),
    {
        let r = self.load_snapshot(control_plane, backup);
        if r.is_ok() {
            self.mark_ready();
        }
        r
    }

    /// Whether lookups are answered.
    pub fn is_ready(&self) -> (b: bool)
        ensures
            b == self.ready,
    {
        self.ready
    }
}

} // verus!
