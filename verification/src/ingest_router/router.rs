//! Matching of incoming requests against the configured routes, and the
//! cells of the matched route's locale.

use crate::ingest_router::config::{CellConfig, HttpMethod, Route};
use crate::ingest_router::locale::{Cells, Locales};
use crate::support::strmap::StrMap;
use crate::support::text::{before_char, chars_of, find_char, lemma_before_char, str_eq, sub_string};
use vstd::prelude::*;

verus! {

/// Whether a request (its `Host` header, path and method) meets a
/// route's conditions: the host without its port, the exact path and the
/// method, each checked only when the route sets it.
pub open spec fn route_matches(route: Route, host: Option<Seq<char>>, path: Seq<char>, method: Seq<char>) -> bool {
    &&& match route.route_match.host {
        Some(h) => host matches Some(x) && before_char(x, ':') == h@,
        None => true,
    }
    &&& match route.route_match.path {
        Some(p) => path == p@,
        None => true,
    }
    &&& match route.route_match.method {
        Some(m) => method == m.name(),
        None => true,
    }
}

/// Position of the first route a request meets.
pub open spec fn first_route(routes: Seq<Route>, host: Option<Seq<char>>, path: Seq<char>, method: Seq<char>) -> Option<int>
    decreases routes.len(),
{
    if routes.len() == 0 {
        None
    } else {
        match first_route(routes.drop_last(), host, path, method) {
            Some(i) => Some(i),
            None => if route_matches(routes.last(), host, path, method) {
                Some(routes.len() - 1)
            } else {
                None
            },
        }
    }
}

/// The route a request is given is one it meets in full: a route with a
/// path only takes requests for exactly that path, one with a method only
/// that method, one with a host only that host (the port left aside).
pub proof fn law_routed_request_meets_route(routes: Seq<Route>, host: Option<Seq<char>>, path: Seq<char>, method: Seq<char>)
    ensures
        first_route(routes, host, path, method) matches Some(i) ==> {
            &&& 0 <= i < routes.len()
            &&& routes[i].route_match.path matches Some(p) ==> path == p@
            &&& routes[i].route_match.method matches Some(m) ==> method == m.name()
            &&& routes[i].route_match.host matches Some(h) ==> (host matches Some(x) && before_char(x, ':') == h@)
        },
    decreases routes.len(),
{
    if routes.len() > 0 {
        law_routed_request_meets_route(routes.drop_last(), host, path, method);
        match first_route(routes.drop_last(), host, path, method) {
            Some(i) => {
                assert(routes.drop_last()[i] == routes[i]);
            },
            None => {},
        }
    }
}

proof fn lemma_first_route_stable(routes: Seq<Route>, host: Option<Seq<char>>, path: Seq<char>, method: Seq<char>, m: int, n: int)
    requires
        0 <= m <= n <= routes.len(),
        first_route(routes.take(m), host, path, method) is Some,
    ensures
        first_route(routes.take(n), host, path, method) == first_route(routes.take(m), host, path, method),
    decreases n - m,
{
    if m < n {
        lemma_first_route_stable(routes, host, path, method, m, n - 1);
        assert(routes.take(n).drop_last() =~= routes.take(n - 1));
    }
}

/// The host of a `Host` header value without its port.
fn host_without_port(host: &str) -> (r: String)
    ensures
        r@ == before_char(host@, ':'),
{
    let v = chars_of(host);
    match find_char(&v, ':') {
        Some(i) => {
            proof {
                lemma_before_char(v@, ':', i as int);
            }
            sub_string(&v, 0, i)
        },
        None => {
            proof {
                lemma_before_char(v@, ':', v@.len() as int);
                assert(v@.subrange(0, v@.len() as int) =~= v@);
            }
            sub_string(&v, 0, v.len())
        },
    }
}

/// Routes requests to the cells of a locale.
pub struct Router {
    routes: Vec<Route>,
    locales_to_cells: Locales,
}

impl Router {
    pub closed spec fn wf(&self) -> bool {
        self.locales_to_cells.wf()
    }

    pub closed spec fn routes_view(&self) -> Seq<Route> {
        self.routes@
    }

    pub closed spec fn locales(&self) -> Locales {
        self.locales_to_cells
    }

    /// A router for the routes, in order, and the locales' cells.
    pub fn new(routes: Vec<Route>, locales: StrMap<Vec<CellConfig>>) -> (r: Self)
        requires
            locales.wf(),
        ensures
            r.wf(),
            r.routes_view() == routes@,
            r.locales().locale_to_cells@.dom() == locales@.dom(),
    {
        Router { routes, locales_to_cells: Locales::new(locales) }
    }

    /// Whether a request meets a route's conditions.
    pub fn matches_route(&self, host: Option<&str>, path: &str, method: &str, route: &Route) -> (b: bool)
        ensures
            b == route_matches(*route, match host {
                Some(h) => Some(h@),
                None => None,
            }, path@, method@),
    {
        match &route.route_match.host {
            Some(expected_host) => match host {
                Some(h) => {
                    let bare = host_without_port(h);
                    if bare != *expected_host {
                        return false;
                    }
                },
                None => return false,
            },
            None => {},
        }
        match &route.route_match.path {
            Some(expected_path) => {
                if !str_eq(path, expected_path.as_str()) {
                    return false;
                }
            },
            None => {},
        }
        match &route.route_match.method {
            Some(m) => {
                if !m.matches_method(method) {
                    return false;
                }
            },
            None => {},
        }
        true
    }

    /// The first route the request meets and the cells of its locale;
    /// `None` when no route matches or its locale has no cells.
    pub fn resolve(&self, host: Option<&str>, path: &str, method: &str) -> (r: Option<(&Route, Cells)>)
        requires
            self.wf(),
        ensures
            match first_route(self.routes_view(), match host {
                Some(h) => Some(h@),
                None => None,
            }, path@, method@) {
                None => r is None,
                Some(i) => {
                    let loc = self.routes_view()[i].action.locale();
                    match r {
                        Some((route, cells)) => *route == self.routes_view()[i]
                            && self.locales().locale_to_cells@.contains_key(loc) && cells.wf()
                            && cells.upstreams() == self.locales().locale_to_cells@[loc].upstreams()
                            && cells.cell_order() == self.locales().locale_to_cells@[loc].cell_order(),
                        None => !self.locales().locale_to_cells@.contains_key(loc),
                    }
                },
            },
    {
        let ghost hv = match host {
            Some(h) => Some(h@),
            None => None,
        };
        let ghost rs = self.routes@;
        let mut i: usize = 0;
        assert(rs.take(0) =~= Seq::<Route>::empty());
        while i < self.routes.len()
            invariant
                i <= rs.len(),
                rs == self.routes@,
                self.wf(),
                hv == (match host {
                    Some(h) => Some(h@),
                    None => None,
                }),
                first_route(rs.take(i as int), hv, path@, method@) is None,
            decreases rs.len() - i,
        {
            assert(rs.take(i + 1).drop_last() =~= rs.take(i as int));
            assert(rs.take(i + 1).last() == rs[i as int]);
            if self.matches_route(host, path, method, &self.routes[i]) {
                proof {
                    lemma_first_route_stable(rs, hv, path@, method@, i + 1, rs.len() as int);
                    assert(rs.take(rs.len() as int) =~= rs);
                }
                let route = &self.routes[i];
                let locale = match &route.action {
                    crate::ingest_router::config::HandlerAction::RelayProjectConfigs(args) => args.locale.as_str(),
                };
                return match self.locales_to_cells.get_cells(locale) {
                    Some(cells) => Some((route, cells)),
                    None => None,
                };
            }
            i = i + 1;
        }
        assert(rs.take(i as int) =~= rs);
        None
    }
}

} // verus!
