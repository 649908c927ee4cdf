//! Host and path-prefix rules: the first rule whose host equals the
//! request's host and whose path prefix the request path starts with
//! decides the destination.

use crate::proxy::config::opt_view;
use crate::support::text::{before_char, chars_of, find_char, is_prefix, lemma_before_char, starts_with, sub_string};
use vstd::prelude::*;

verus! {

/// The parts of a request the rules look at.
pub struct IncomingRequest<'a> {
    pub host: &'a str,
    pub path: &'a str,
}

/// Match conditions of a rule: an exact host, and a path pattern whose
/// part before the first `{` must prefix the request path.
pub struct RuleMatch {
    pub host: String,
    pub path_prefix_pattern: Option<String>,
}

/// Destination of a rule.
pub enum RouteAction {
    Static { to: String },
    Dynamic { resolver: String, default: Option<String> },
}

/// A rule of the rules engine.
pub struct Route {
    pub route_match: RuleMatch,
    pub route: RouteAction,
}

/// Whether a rule applies to a request.
pub open spec fn rule_applies(r: Route, host: Seq<char>, path: Seq<char>) -> bool {
    &&& r.route_match.host@ == host
    &&& match r.route_match.path_prefix_pattern {
        Some(p) => is_prefix(before_char(p@, '{'), path),
        None => true,
    }
}

/// Where a rule sends a request: its static target, or the default of a
/// dynamic rule.
pub open spec fn rule_destination(a: RouteAction) -> Option<Seq<char>> {
    match a {
        RouteAction::Static { to } => Some(to@),
        RouteAction::Dynamic { default, .. } => opt_view(default),
    }
}

/// The destination of the first applicable rule.
pub open spec fn find_destination_spec(routes: Seq<Route>, host: Seq<char>, path: Seq<char>) -> Option<Seq<char>>
    decreases routes.len(),
{
    if routes.len() == 0 {
        None
    } else if rule_applies(routes[0], host, path) {
        rule_destination(routes[0].route)
    } else {
        find_destination_spec(routes.drop_first(), host, path)
    }
}

/// Routes requests by host and path prefix.
pub struct RulesEngine {
    pub routes: Vec<Route>,
}

fn path_prefix_matches(pattern: &String, path: &Vec<char>) -> (b: bool)
    ensures
        b == is_prefix(before_char(pattern@, '{'), path@),
{
    let p = chars_of(pattern.as_str());
    let end = match find_char(&p, '{') {
        Some(i) => i,
        None => p.len(),
    };
    proof {
        lemma_before_char(p@, '{', end as int);
    }
    let prefix = chars_of(sub_string(&p, 0, end).as_str());
    starts_with(path, &prefix)
}

fn clone_opt(o: &Option<String>) -> (r: Option<String>)
    ensures
        opt_view(r) == opt_view(*o),
{
    match o {
        Some(s) => Some(s.clone()),
        None => None,
    }
}

impl RulesEngine {
    pub fn new(routes: Vec<Route>) -> (e: Self)
        ensures
            e.routes@ == routes@,
    {
        Self { routes }
    }

    /// The destination of the first rule that applies to the request.
    pub fn find_destination(&self, request: &IncomingRequest) -> (r: Option<String>)
        ensures
            opt_view(r) == find_destination_spec(self.routes@, request.host@, request.path@),
    {
        let path = chars_of(request.path);
        let mut i: usize = 0;
        assert(self.routes@.skip(0) =~= self.routes@);
        while i < self.routes.len()
            invariant
                i <= self.routes@.len(),
                path@ == request.path@,
                find_destination_spec(self.routes@, request.host@, request.path@)
                    == find_destination_spec(self.routes@.skip(i as int), request.host@, request.path@),
            decreases self.routes@.len() - i,
        {
            let route = &self.routes[i];
            assert(self.routes@.skip(i as int)[0] == *route);
            assert(self.routes@.skip(i as int).drop_first() =~= self.routes@.skip((i + 1) as int));
            let host_ok = route.route_match.host == request.host.to_owned();
            let applies = host_ok && match &route.route_match.path_prefix_pattern {
                Some(pattern) => path_prefix_matches(pattern, &path),
                None => true,
            };
            if applies {
                return match &route.route {
                    RouteAction::Static { to } => Some(to.clone()),
                    RouteAction::Dynamic { default, .. } => clone_opt(default),
                };
            }
            i = i + 1;
        }
        None
    }
}

} // verus!
