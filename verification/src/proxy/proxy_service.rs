//! The decisions of the proxy for one request: which route matches, what
//! must be asked of the locator, which upstream gets the request, and
//! what the client is answered when it cannot be forwarded. Sending the
//! request and the lookups happen outside.

use crate::proxy::config::{Action, Route as RouteConfig, UpstreamConfig};
use crate::proxy::errors::{ProxyError, ProxyErrorView};
use crate::proxy::resolvers::{CellQuery, Resolver, Resolvers};
use crate::proxy::route_actions::{first_match, parse_routes, RouteActions, RouteMatch};
use crate::proxy::upstreams::{upstreams_of, Upstreams};
use vstd::prelude::*;

verus! {

/// Answer when no upstream is found for the request.
pub const NOT_FOUND: u16 = 404;

/// Answer when the request URI has no path.
pub const BAD_REQUEST: u16 = 400;

/// Answer when the URI for the upstream cannot be built.
pub const INTERNAL_SERVER_ERROR: u16 = 500;

/// Answer when the upstream cannot be reached.
pub const BAD_GATEWAY: u16 = 502;

/// What to do with a request.
#[derive(Debug, PartialEq, Eq)]
pub enum ProxyDecision {
    /// Send it to this scheme and authority, keeping its path and query.
    Forward { scheme: String, authority: String, path_and_query: String },
    /// Answer with this error status.
    Respond(u16),
}

/// The proxy's routing tables.
pub struct ProxyService {
    route_actions: RouteActions,
    upstreams: Upstreams,
    resolvers: Resolvers,
}

/// The upstream name a matched route gives: a static route's target; for
/// a dynamic route the upstream of the resolved cell, or the route's
/// default when there is none.
pub open spec fn upstream_name_of(route: Option<RouteMatch>, resolved: Option<Result<String, ProxyError>>) -> Option<Seq<char>> {
    match route {
        None => None,
        Some(m) => match m.action {
            Action::Static { to } => Some(to@),
            Action::Dynamic { cell_to_upstream, default, .. } => match resolved {
                Some(Ok(c)) if cell_to_upstream@.contains_key(c@) => Some(cell_to_upstream@[c@]@),
                _ => match default {
                    Some(d) => Some(d@),
                    None => None,
                },
            },
        },
    }
}

/// A dynamic route with a default always gives an upstream: the upstream
/// of the resolved cell when the cell was resolved and has one, and the
/// default otherwise (a failed lookup, or a cell with no upstream).
pub proof fn law_dynamic_route_falls_back_to_default(
    m: RouteMatch,
    resolved: Option<Result<String, ProxyError>>,
    d: String,
)
    requires
        m.action matches Action::Dynamic { default, .. } && default == Some(d),
    ensures
        upstream_name_of(Some(m), resolved) is Some,
        match m.action {
            Action::Dynamic { cell_to_upstream, .. } => {
                &&& (resolved matches Some(Ok(c)) && cell_to_upstream@.contains_key(c@))
                    ==> upstream_name_of(Some(m), resolved) == Some(cell_to_upstream@[resolved->Some_0->Ok_0@]@)
                &&& !(resolved matches Some(Ok(c)) && cell_to_upstream@.contains_key(c@))
                    ==> upstream_name_of(Some(m), resolved) == Some(d@)
            },
            _ => true,
        },
{
}

/// A static route always goes to its own target, whatever was resolved;
/// a request that matched no route has no upstream.
pub proof fn law_static_route_goes_to_target(
    m: RouteMatch,
    resolved: Option<Result<String, ProxyError>>,
    other: Option<Result<String, ProxyError>>,
)
    ensures
        m.action matches Action::Static { to } ==> upstream_name_of(Some(m), resolved) == Some(to@),
        m.action is Static ==> upstream_name_of(Some(m), resolved) == upstream_name_of(Some(m), other),
        upstream_name_of(None, resolved) is None,
{
}

impl ProxyService {
    pub closed spec fn wf(&self) -> bool {
        self.route_actions.wf() && self.upstreams.wf()
    }

    /// The routes, in configuration order.
    pub closed spec fn route_table(&self) -> RouteActions {
        self.route_actions
    }

    pub closed spec fn upstreams_view(&self) -> Map<Seq<char>, (Seq<char>, Seq<char>)> {
        self.upstreams@
    }

    /// Builds the routes, then the upstreams; the first error stops it.
    pub fn try_new(route_config: Vec<RouteConfig>, upstream_config: Vec<UpstreamConfig>) -> (r: Result<Self, ProxyError>)
        requires
            forall|i: int| 0 <= i < route_config@.len() ==> (#[trigger] route_config@[i]).action.wf(),
        ensures
            match r {
                Ok(s) => s.wf() && parse_routes(route_config@) == Ok::<_, Seq<char>>(s.route_table()@)
                    && upstreams_of(upstream_config@) == Ok::<_, ProxyErrorView>(s.upstreams_view()),
                Err(ProxyError::InvalidRoute(m)) => parse_routes(route_config@) == Err::<Seq<crate::proxy::route_actions::RouteView>, Seq<char>>(m@),
                Err(e) => parse_routes(route_config@) is Ok && upstreams_of(upstream_config@) == Err::<Map<Seq<char>, (Seq<char>, Seq<char>)>, ProxyErrorView>(e@),
            },
    {
        let route_actions = match RouteActions::try_new(route_config) {
            Ok(r) => r,
            Err(e) => return Err(e),
        };
        let upstreams = match Upstreams::try_new(upstream_config) {
            Ok(u) => u,
            Err(e) => {
                assert(!(e is InvalidRoute)) by {
                    assert(upstreams_of(upstream_config@) is Err);
                    lemma_upstream_error_kind(upstream_config@);
                }
                return Err(e);
            },
        };
        let resolvers = match Resolvers::try_new() {
            Ok(r) => r,
            Err(e) => return Err(e),
        };
        Ok(ProxyService { route_actions, upstreams, resolvers })
    }

    /// The first route that matches the request.
    pub fn route(&self, host: Option<&str>, path: &str) -> (r: Option<RouteMatch>)
        requires
            self.wf(),
        ensures
            crate::proxy::route_actions::opt_match_view(r) == first_match(self.route_table()@, match host {
                Some(h) => Some(h@),
                None => None,
            }, path@),
            r matches Some(m) ==> m.params.wf() && m.action.wf(),
    {
        self.route_actions.resolve(host, path)
    }

    /// What the resolvers need to know for a matched route: nothing for a
    /// static route; for a dynamic route the query its resolver makes, or
    /// an error when the resolver is unknown or its parameter missing.
    pub fn cell_query(&self, route: &RouteMatch) -> (r: Option<Result<CellQuery, ProxyError>>)
        requires
            route.params.wf(),
        ensures
            match route.action {
                Action::Static { .. } => r is None,
                Action::Dynamic { resolver, .. } => match Resolver::from_name_spec(resolver@) {
                    None => r == Some(Err::<CellQuery, ProxyError>(ProxyError::ResolverError)),
                    Some(Resolver::CellFromOrganization) => match r {
                        Some(Ok(CellQuery::Organization(o))) => route.params@.contains_key("organization"@) && o == route.params@["organization"@],
                        Some(Err(ProxyError::ResolverError)) => !route.params@.contains_key("organization"@),
                        _ => false,
                    },
                    Some(Resolver::CellFromId) => match r {
                        Some(Ok(CellQuery::Cell(c))) => route.params@.contains_key("id"@) && c == route.params@["id"@],
                        Some(Err(ProxyError::ResolverError)) => !route.params@.contains_key("id"@),
                        _ => false,
                    },
                },
            },
    {
        match &route.action {
            Action::Static { .. } => None,
            Action::Dynamic { resolver, .. } => match Resolver::from_name(resolver.as_str()) {
                Some(res) => Some(self.resolvers.cell_query(&res, &route.params)),
                None => Some(Err(ProxyError::ResolverError)),
            },
        }
    }

    /// The upstream name for a matched route, given the resolved cell of a
    /// dynamic route (`None` when there was nothing to resolve).
    pub fn upstream_name(&self, route: Option<RouteMatch>, resolved: Option<Result<String, ProxyError>>) -> (r: Option<String>)
        requires
            route matches Some(m) ==> m.action.wf(),
        ensures
            match r {
                Some(s) => upstream_name_of(route, resolved) == Some(s@),
                None => upstream_name_of(route, resolved) is None,
            },
    {
        match route {
            None => None,
            Some(m) => match m.action {
                Action::Static { to } => Some(to),
                Action::Dynamic { cell_to_upstream, default, .. } => {
                    let found = match resolved {
                        Some(cell) => match self.resolvers.resolve(cell, &cell_to_upstream) {
                            Ok(u) => Some(u.to_owned()),
                            Err(_) => None,
                        },
                        None => None,
                    };
                    match found {
                        Some(u) => Some(u),
                        None => default,
                    }
                },
            },
        }
    }

    /// What to do with the request: forward it to the named upstream,
    /// keeping its path and query; not found when no upstream has that
    /// name; a bad request when the URI has no path.
    pub fn plan(&self, upstream_name: Option<&str>, path_and_query: Option<&str>) -> (r: ProxyDecision)
        requires
            self.wf(),
        ensures
            match upstream_name {
                Some(n) if self.upstreams_view().contains_key(n@) => match path_and_query {
                    Some(pq) => r matches ProxyDecision::Forward { scheme, authority, path_and_query: p }
                        && (scheme@, authority@) == self.upstreams_view()[n@] && p@ == pq@,
                    None => r == ProxyDecision::Respond(BAD_REQUEST),
                },
                _ => r == ProxyDecision::Respond(NOT_FOUND),
            },
    {
        let upstream = match upstream_name {
            Some(n) => self.upstreams.get(n),
            None => None,
        };
        match upstream {
            None => ProxyDecision::Respond(NOT_FOUND),
            Some(u) => match path_and_query {
                Some(pq) => ProxyDecision::Forward {
                    scheme: u.scheme.clone(),
                    authority: u.authority.clone(),
                    path_and_query: pq.to_owned(),
                },
                None => ProxyDecision::Respond(BAD_REQUEST),
            },
        }
    }

    /// The answer when forwarding failed: the target URI could not be
    /// built, or the upstream could not be reached.
    pub fn forward_failure_status(uri_built: bool) -> (s: u16)
        ensures
            s == (if uri_built { BAD_GATEWAY } else { INTERNAL_SERVER_ERROR }),
    {
        if uri_built {
            BAD_GATEWAY
        } else {
            INTERNAL_SERVER_ERROR
        }
    }
}

/// An upstream configuration fails on a URL, never on a route.
proof fn lemma_upstream_error_kind(cfgs: Seq<UpstreamConfig>)
    ensures
        upstreams_of(cfgs) matches Err(e) ==> !(e is InvalidRoute),
    decreases cfgs.len(),
{
    if cfgs.len() > 0 {
        lemma_upstream_error_kind(cfgs.drop_last());
    }
}

} // verus!
