//! Configuration of the proxy: listeners, upstreams and routes.

use crate::locator::config::{BackupRouteStore, ControlPlane};
use crate::support::strmap::{lemma_clone_strings, StrMap};
use vstd::prelude::*;

verus! {

/// Main listener address.
#[derive(Debug, PartialEq, Eq)]
pub struct Listener {
    pub host: String,
    pub port: u16,
}

impl Default for Listener {
    fn default() -> (l: Self)
        ensures
            l.host@ == "0.0.0.0"@,
            l.port == 3000,
    {
        Listener { host: "0.0.0.0".to_owned(), port: 3000 }
    }
}

/// Admin listener address.
#[derive(Debug, PartialEq, Eq)]
pub struct AdminListener {
    pub host: String,
    pub port: u16,
}

impl Default for AdminListener {
    fn default() -> (l: Self)
        ensures
            l.host@ == "0.0.0.0"@,
            l.port == 3001,
    {
        AdminListener { host: "0.0.0.0".to_owned(), port: 3001 }
    }
}

/// A named upstream and its URL.
#[derive(Debug, PartialEq, Eq)]
pub struct UpstreamConfig {
    pub name: String,
    pub url: String,
}

/// A routing rule: what to match and what to do.
#[derive(Debug, PartialEq, Eq)]
pub struct Route {
    pub route_match: Match,
    pub action: Action,
}

/// Match conditions of a route.
#[derive(Debug, PartialEq, Eq)]
pub struct Match {
    pub host: Option<String>,
    pub path: Option<String>,
}

/// What a matched route does: send to a fixed upstream, or resolve the
/// cell and map it to an upstream.
#[derive(Debug, PartialEq, Eq)]
pub enum Action {
    Dynamic { resolver: String, cell_to_upstream: StrMap<String>, default: Option<String> },
    Static { to: String },
}

pub open spec fn opt_view(o: Option<String>) -> Option<Seq<char>> {
    match o {
        Some(s) => Some(s@),
        None => None,
    }
}

/// The action, with every string taken by its characters.
pub enum ActionView {
    Dynamic {
        resolver: Seq<char>,
        cell_to_upstream: Map<Seq<char>, Seq<char>>,
        default: Option<Seq<char>>,
    },
    Static { to: Seq<char> },
}

impl Action {
    pub open spec fn view(&self) -> ActionView {
        match self {
            Action::Dynamic { resolver, cell_to_upstream, default } => ActionView::Dynamic {
                resolver: resolver@,
                cell_to_upstream: cell_to_upstream.str_view(),
                default: opt_view(*default),
            },
            Action::Static { to } => ActionView::Static { to: to@ },
        }
    }

    pub open spec fn wf(&self) -> bool {
        match self {
            Action::Dynamic { cell_to_upstream, .. } => cell_to_upstream.wf(),
            Action::Static { .. } => true,
        }
    }
}

impl Clone for Action {
    fn clone(&self) -> (r: Self)
        ensures
            self.wf() ==> r.wf() && r@ == self@,
    {
        match self {
            Action::Dynamic { resolver, cell_to_upstream, default } => {
                let m = cell_to_upstream.clone();
                proof {
                    lemma_clone_strings(*cell_to_upstream, m);
                }
                Action::Dynamic {
                    resolver: resolver.clone(),
                    cell_to_upstream: m,
                    default: match default {
                        Some(d) => Some(d.clone()),
                        None => None,
                    },
                }
            },
            Action::Static { to } => Action::Static { to: to.clone() },
        }
    }
}

impl Clone for Match {
    fn clone(&self) -> (r: Self)
        ensures
            opt_view(r.host) == opt_view(self.host),
            opt_view(r.path) == opt_view(self.path),
    {
        Match {
            host: match &self.host {
                Some(h) => Some(h.clone()),
                None => None,
            },
            path: match &self.path {
                Some(p) => Some(p.clone()),
                None => None,
            },
        }
    }
}

impl Clone for Route {
    fn clone(&self) -> (r: Self)
        ensures
            opt_view(r.route_match.host) == opt_view(self.route_match.host),
            opt_view(r.route_match.path) == opt_view(self.route_match.path),
            self.action.wf() ==> r.action.wf() && r.action@ == self.action@,
    {
        Route { route_match: self.route_match.clone(), action: self.action.clone() }
    }
}

#[derive(Debug, PartialEq, Eq)]
pub struct HandlerConfig {
    pub name: String,
}

/// How the proxy reaches the locator.
#[derive(Debug, PartialEq, Eq)]
pub enum LocatorType {
    Url { url: String },
    InProcess {
        control_plane: ControlPlane,
        backup_route_store: BackupRouteStore,
        locality_to_default_cell: Option<StrMap<String>>,
    },
}

#[derive(Debug, PartialEq, Eq)]
pub struct Locator {
    pub kind: LocatorType,
}

/// Proxy configuration.
#[derive(Debug, PartialEq, Eq)]
pub struct Config {
    pub upstreams: Vec<UpstreamConfig>,
    pub routes: Vec<Route>,
    pub listener: Listener,
    pub admin_listener: AdminListener,
    pub locator: Locator,
}

} // verus!
