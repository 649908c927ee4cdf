//! Route matching for the proxy: route patterns are parsed once from the
//! configuration, and each request is matched against them in order.
//!
//! A pattern is a host (optional) and a path (optional). A path is a list
//! of `/`-separated segments, each a literal or a `{name}` parameter, and
//! may end in `/*`, which accepts any further segments. Slashes and
//! whitespace around paths are ignored.

use crate::proxy::config::{opt_view, Action, ActionView, Route as RouteConfig};
use crate::proxy::errors::ProxyError;
use crate::support::strmap::StrMap;
use crate::support::text::{
    chars_of, concat_str, opt_str_eq, split_on, split_ranges, sub_string, trim_by, trim_range, TrimMode,
};
use vstd::prelude::*;

verus! {

/// One segment of a route's path pattern.
#[derive(Debug, PartialEq, Eq)]
pub enum PathSegment {
    Static(String),
    Param(String),
}

pub enum SegmentView {
    Static(Seq<char>),
    Param(Seq<char>),
}

impl PathSegment {
    pub open spec fn view(&self) -> SegmentView {
        match self {
            PathSegment::Static(s) => SegmentView::Static(s@),
            PathSegment::Param(s) => SegmentView::Param(s@),
        }
    }
}

/// A parsed path pattern.
#[derive(Debug, PartialEq, Eq)]
pub struct Path {
    pub segments: Vec<PathSegment>,
    pub has_trailing_splat: bool,
}

impl Path {
    pub open spec fn view(&self) -> (Seq<SegmentView>, bool) {
        (self.segments@.map_values(|s: PathSegment| s@), self.has_trailing_splat)
    }
}

/// The result of matching a request: the path parameters and the action.
#[derive(Debug, PartialEq, Eq)]
pub struct RouteMatch {
    pub params: StrMap<String>,
    pub action: Action,
}

/// A parsed route.
#[derive(Debug, PartialEq, Eq)]
pub struct Route {
    pub host: Option<String>,
    pub path: Option<Path>,
    pub action: Action,
}

/// A parsed route, with every string taken by its characters.
pub struct RouteView {
    pub host: Option<Seq<char>>,
    pub path: Option<(Seq<SegmentView>, bool)>,
    pub action: ActionView,
}

impl Route {
    pub open spec fn view(&self) -> RouteView {
        RouteView {
            host: opt_view(self.host),
            path: match self.path {
                Some(p) => Some(p@),
                None => None,
            },
            action: self.action@,
        }
    }

    pub open spec fn wf(&self) -> bool {
        self.action.wf()
    }
}

// ---------------------------------------------------------------------------
// Specification of pattern parsing.

/// Characters accepted in a parameter name: lower-case ASCII letters and
/// `_`.
pub open spec fn is_param_char(c: char) -> bool {
    ('a' <= c && c <= 'z') || c == '_'
}

/// Characters accepted in a literal segment: ASCII letters and digits,
/// `-`, `_` and `.`.
pub open spec fn is_static_char(c: char) -> bool {
    ||| ('a' <= c && c <= 'z')
    ||| ('A' <= c && c <= 'Z')
    ||| ('0' <= c && c <= '9')
    ||| c == '-'
    ||| c == '_'
    ||| c == '.'
}

/// A segment written `{...}`.
pub open spec fn is_param_segment(s: Seq<char>) -> bool {
    s.len() >= 2 && s[0] == '{' && s.last() == '}'
}

/// Parses one segment; the error is the message of the configuration error.
pub open spec fn parse_segment(s: Seq<char>) -> Result<SegmentView, Seq<char>> {
    if is_param_segment(s) {
        let name = s.subrange(1, s.len() - 1);
        if forall|i: int| 0 <= i < name.len() ==> is_param_char(#[trigger] name[i]) {
            Ok(SegmentView::Param(name))
        } else {
            Err("Invalid parameter name: "@ + name)
        }
    } else if forall|i: int| 0 <= i < s.len() ==> is_static_char(#[trigger] s[i]) {
        Ok(SegmentView::Static(s))
    } else {
        Err("Invalid static segment: "@ + s)
    }
}

/// Parses the segments in order, stopping at the first error.
pub open spec fn parse_segments(parts: Seq<Seq<char>>) -> Result<
    Seq<SegmentView>,
    Seq<char>,
>
    decreases parts.len(),
{
    if parts.len() == 0 {
        Ok(Seq::empty())
    } else {
        match parse_segments(parts.drop_last()) {
            Err(e) => Err(e),
            Ok(segs) => match parse_segment(parts.last()) {
                Ok(seg) => Ok(segs.push(seg)),
                Err(e) => Err(e),
            },
        }
    }
}

/// The path with surrounding whitespace and then surrounding slashes removed.
pub open spec fn normalize_path(p: Seq<char>) -> Seq<char> {
    trim_by(trim_by(p, TrimMode::Whitespace), TrimMode::Char('/'))
}

pub open spec fn ends_with_splat(n: Seq<char>) -> bool {
    n.len() >= 2 && n[n.len() - 2] == '/' && n.last() == '*'
}

/// Parses a path pattern.
pub open spec fn parse_path(p: Seq<char>) -> Result<(Seq<SegmentView>, bool), Seq<char>> {
    let n0 = normalize_path(p);
    let splat = ends_with_splat(n0);
    let n = if splat {
        n0.subrange(0, n0.len() - 2)
    } else {
        n0
    };
    if n.len() == 0 {
        Ok((Seq::empty(), splat))
    } else {
        match parse_segments(split_on(n, '/')) {
            Ok(segs) => Ok((segs, splat)),
            Err(e) => Err(e),
        }
    }
}

/// The route a configuration entry parses to, or the error message.
pub open spec fn parse_route(config: RouteConfig) -> Result<RouteView, Seq<char>> {
    match config.route_match.path {
        None => Ok(RouteView { host: opt_view(config.route_match.host), path: None, action: config.action@ }),
        Some(p) => match parse_path(p@) {
            Ok(pv) => Ok(
                RouteView { host: opt_view(config.route_match.host), path: Some(pv), action: config.action@ },
            ),
            Err(e) => Err(e),
        },
    }
}

// ---------------------------------------------------------------------------
// Specification of matching.

/// The segments of a request path: empty for `/` or an empty path.
pub open spec fn request_segments(path: Seq<char>) -> Seq<Seq<char>> {
    let n = normalize_path(path);
    if n.len() == 0 {
        Seq::empty()
    } else {
        split_on(n, '/')
    }
}

pub open spec fn segments_match(segs: Seq<SegmentView>, req: Seq<Seq<char>>, splat: bool) -> bool {
    &&& segs.len() <= req.len()
    &&& forall|i: int|
        0 <= i < segs.len() ==> (#[trigger] segs[i] matches SegmentView::Static(s) ==> req[i] == s)
    &&& (splat || segs.len() == req.len())
}

/// The parameters bound by the first `n` segments (a later binding of the
/// same name wins).
pub open spec fn params_of(segs: Seq<SegmentView>, req: Seq<Seq<char>>, n: int) -> Map<Seq<char>, Seq<char>>
    decreases n,
{
    if n <= 0 {
        Map::empty()
    } else {
        let m = params_of(segs, req, n - 1);
        match segs[n - 1] {
            SegmentView::Param(name) => m.insert(name, req[n - 1]),
            SegmentView::Static(_) => m,
        }
    }
}

/// What a route gives for a request: `None`, or the parameters and action.
pub open spec fn route_match(r: RouteView, host: Option<Seq<char>>, path: Seq<char>) -> Option<
    (Map<Seq<char>, Seq<char>>, ActionView),
> {
    if r.host is Some && r.host != host {
        None
    } else {
        match r.path {
            None => Some((Map::empty(), r.action)),
            Some((segs, splat)) => {
                let req = request_segments(path);
                if segments_match(segs, req, splat) {
                    Some((params_of(segs, req, segs.len() as int), r.action))
                } else {
                    None
                }
            },
        }
    }
}

/// The result of the first route that matches.
pub open spec fn first_match(routes: Seq<RouteView>, host: Option<Seq<char>>, path: Seq<char>) -> Option<
    (Map<Seq<char>, Seq<char>>, ActionView),
>
    decreases routes.len(),
{
    if routes.len() == 0 {
        None
    } else {
        match route_match(routes[0], host, path) {
            Some(m) => Some(m),
            None => first_match(routes.drop_first(), host, path),
        }
    }
}

/// A route matches a request only segment for segment: every literal
/// segment of its pattern equals, character for character, the request's
/// segment at the same place, and without a trailing `/*` the request has
/// no more segments than the pattern.
pub proof fn law_static_segments_match_exactly(r: RouteView, host: Option<Seq<char>>, path: Seq<char>, i: int)
    requires
        route_match(r, host, path) is Some,
        r.path is Some,
        0 <= i < r.path->Some_0.0.len(),
    ensures
        i < request_segments(path).len(),
        r.path->Some_0.0[i] matches SegmentView::Static(s) ==> request_segments(path)[i] == s,
        !r.path->Some_0.1 ==> request_segments(path).len() == r.path->Some_0.0.len(),
        r.host is Some ==> host == r.host,
{
    let segs = r.path->Some_0.0;
    assert(segs[i] == segs[i]);
}

/// A request is given the match of the first route, in configuration
/// order, that matches it: every earlier route does not match it.
pub proof fn law_first_matching_route_wins(routes: Seq<RouteView>, host: Option<Seq<char>>, path: Seq<char>)
    ensures
        first_match(routes, host, path) is Some ==> exists|i: int|
            0 <= i < routes.len() && route_match(routes[i], host, path) == first_match(routes, host, path)
                && forall|j: int| 0 <= j < i ==> (#[trigger] route_match(routes[j], host, path)) is None,
        first_match(routes, host, path) is None ==> forall|j: int|
            0 <= j < routes.len() ==> (#[trigger] route_match(routes[j], host, path)) is None,
    decreases routes.len(),
{
    if routes.len() > 0 {
        let rest = routes.drop_first();
        law_first_matching_route_wins(rest, host, path);
        assert forall|j: int| 0 <= j < rest.len() implies rest[j] == routes[j + 1] by {}
        if route_match(routes[0], host, path) is None {
            if first_match(rest, host, path) is Some {
                let k = choose|k: int|
                    0 <= k < rest.len() && route_match(rest[k], host, path) == first_match(rest, host, path)
                        && forall|j: int| 0 <= j < k ==> (#[trigger] route_match(rest[j], host, path)) is None;
                assert forall|j: int| 0 <= j < k + 1 implies (#[trigger] route_match(routes[j], host, path)) is None by {
                    if j > 0 {
                        assert(routes[j] == rest[j - 1]);
                    }
                }
                assert(route_match(routes[k + 1], host, path) == first_match(routes, host, path));
            } else {
                assert forall|j: int| 0 <= j < routes.len() implies (#[trigger] route_match(routes[j], host, path)) is None by {
                    if j > 0 {
                        assert(routes[j] == rest[j - 1]);
                    }
                }
            }
        } else {
            assert(route_match(routes[0], host, path) == first_match(routes, host, path));
        }
    }
}

impl RouteMatch {
    pub open spec fn view(&self) -> (Map<Seq<char>, Seq<char>>, ActionView) {
        (self.params.str_view(), self.action@)
    }
}

pub open spec fn opt_match_view(r: Option<RouteMatch>) -> Option<(Map<Seq<char>, Seq<char>>, ActionView)> {
    match r {
        Some(m) => Some(m@),
        None => None,
    }
}

// ---------------------------------------------------------------------------
// Implementation.

fn is_param_char_exec(c: char) -> (b: bool)
    ensures
        b == is_param_char(c),
{
    ('a' <= c && c <= 'z') || c == '_'
}

fn is_static_char_exec(c: char) -> (b: bool)
    ensures
        b == is_static_char(c),
{
    ('a' <= c && c <= 'z') || ('A' <= c && c <= 'Z') || ('0' <= c && c <= '9') || c == '-' || c
        == '_' || c == '.'
}

/// Parses the segment `v[lo..hi]`.
#[verifier::loop_isolation(false)]
fn parse_segment_exec(v: &Vec<char>, lo: usize, hi: usize) -> (r: Result<
    PathSegment,
    String,
>)
    requires
        lo <= hi <= v@.len(),
    ensures
        match (r, parse_segment(v@.subrange(lo as int, hi as int))) {
            (Ok(seg), Ok(sv)) => seg@ == sv,
            (Err(m), Err(e)) => m@ == e,
            _ => false,
        },
{
    let ghost s = v@.subrange(lo as int, hi as int);
    assert(is_param_segment(s) == (hi - lo >= 2 && v@[lo as int] == '{' && v@[hi - 1] == '}'));
    if hi - lo >= 2 && v[lo] == '{' && v[hi - 1] == '}' {
        let ghost name = s.subrange(1, s.len() - 1);
        assert(name =~= v@.subrange(lo + 1, hi - 1));
        let mut i = lo + 1;
        while i < hi - 1
            invariant
                lo + 1 <= i <= hi - 1,
                hi <= v@.len(),
                name == v@.subrange(lo + 1, hi - 1),
                forall|k: int| lo + 1 <= k < i ==> is_param_char(#[trigger] v@[k]),
            decreases hi - 1 - i,
        {
            if !is_param_char_exec(v[i]) {
                let n = sub_string(v, lo + 1, hi - 1);
                assert(!is_param_char(name[i - lo - 1]));
                return Err(concat_str("Invalid parameter name: ", n.as_str()));
            }
            i = i + 1;
        }
        assert forall|k: int| 0 <= k < name.len() implies is_param_char(#[trigger] name[k]) by {
            assert(name[k] == v@[lo + 1 + k]);
        }
        Ok(PathSegment::Param(sub_string(v, lo + 1, hi - 1)))
    } else {
        let mut i = lo;
        while i < hi
            invariant
                lo <= i <= hi <= v@.len(),
                s == v@.subrange(lo as int, hi as int),
                forall|k: int| lo <= k < i ==> is_static_char(#[trigger] v@[k]),
            decreases hi - i,
        {
            if !is_static_char_exec(v[i]) {
                let n = sub_string(v, lo, hi);
                assert(!is_static_char(s[i - lo]));
                return Err(concat_str("Invalid static segment: ", n.as_str()));
            }
            i = i + 1;
        }
        assert forall|k: int| 0 <= k < s.len() implies is_static_char(#[trigger] s[k]) by {
            assert(s[k] == v@[lo + k]);
        }
        Ok(PathSegment::Static(sub_string(v, lo, hi)))
    }
}

/// Once a prefix of the parts fails to parse, so do all longer prefixes,
/// with the same error.
proof fn lemma_parse_segments_err(parts: Seq<Seq<char>>, i: int)
    requires
        0 <= i <= parts.len(),
        parse_segments(parts.take(i)) is Err,
    ensures
        parse_segments(parts) == parse_segments(parts.take(i)),
    decreases parts.len() - i,
{
    if i < parts.len() {
        assert(parts.take(i + 1).drop_last() =~= parts.take(i));
        lemma_parse_segments_err(parts, i + 1);
    } else {
        assert(parts.take(i) =~= parts);
    }
}

/// The normalized form of `v` is `v[r.0..r.1]`.
fn normalize_range(v: &Vec<char>) -> (r: (usize, usize))
    ensures
        r.0 <= r.1 <= v@.len(),
        v@.subrange(r.0 as int, r.1 as int) == normalize_path(v@),
{
    let (a, b) = trim_range(v, 0, v.len(), TrimMode::Whitespace);
    assert(v@.subrange(0, v@.len() as int) =~= v@);
    let (c, d) = trim_range(v, a, b, TrimMode::Char('/'));
    (c, d)
}

/// Parses a path pattern.
#[verifier::loop_isolation(false)]
fn parse_path_exec(p: &str) -> (r: Result<Path, String>)
    ensures
        match (r, parse_path(p@)) {
            (Ok(path), Ok(pv)) => path@ == pv,
            (Err(m), Err(e)) => m@ == e,
            _ => false,
        },
{
    let v = chars_of(p);
    let (c, d0) = normalize_range(&v);
    let ghost n0 = normalize_path(p@);
    let mut d = d0;
    let mut has_trailing_splat = false;
    if d0 - c >= 2 && v[d0 - 2] == '/' && v[d0 - 1] == '*' {
        has_trailing_splat = true;
        d = d0 - 2;
    }
    let ghost n = if has_trailing_splat {
        n0.subrange(0, n0.len() - 2)
    } else {
        n0
    };
    assert(ends_with_splat(n0) == has_trailing_splat);
    assert(v@.subrange(c as int, d as int) =~= n);
    if c == d {
        let path = Path { segments: Vec::new(), has_trailing_splat };
        assert(path@.0 =~= Seq::<SegmentView>::empty());
        return Ok(path);
    }
    let ranges = split_ranges(&v, c, d, '/');
    let ghost parts = split_on(n, '/');
    let mut segments: Vec<PathSegment> = Vec::new();
    let mut i: usize = 0;
    assert(parts.take(0) =~= Seq::<Seq<char>>::empty());
    assert(segments@.map_values(|s: PathSegment| s@) =~= Seq::<SegmentView>::empty());
    while i < ranges.len()
        invariant
            ranges@.len() == parts.len(),
            c <= d <= v@.len(),
            parts == split_on(v@.subrange(c as int, d as int), '/'),
            forall|k: int|
                0 <= k < ranges@.len() ==> {
                    &&& c <= (#[trigger] ranges@[k]).0 <= ranges@[k].1 <= d
                    &&& v@.subrange(ranges@[k].0 as int, ranges@[k].1 as int) == parts[k]
                },
            i <= ranges@.len(),
            parse_segments(parts.take(i as int)) == Ok::<Seq<SegmentView>, Seq<char>>(
                segments@.map_values(|s: PathSegment| s@),
            ),
        decreases ranges@.len() - i,
    {
        let (lo, hi) = ranges[i];
        assert(parts.take((i + 1) as int).drop_last() =~= parts.take(i as int));
        assert(parts.take((i + 1) as int).last() == parts[i as int]);
        match parse_segment_exec(&v, lo, hi) {
            Ok(seg) => {
                segments.push(seg);
                assert(segments@.map_values(|s: PathSegment| s@) =~= parse_segments(
                    parts.take(i as int),
                )->Ok_0.push(seg@));
            },
            Err(m) => {
                proof {
                    lemma_parse_segments_err(parts, (i + 1) as int);
                }
                return Err(m);
            },
        }
        i = i + 1;
    }
    assert(parts.take(ranges@.len() as int) =~= parts);
    Ok(Path { segments, has_trailing_splat })
}

impl Route {
    /// Parses a route from its configuration; an invalid path pattern is a
    /// `ProxyError::InvalidRoute` with the reason.
    pub fn try_from(config: RouteConfig) -> (r: Result<Route, ProxyError>)
        requires
            config.action.wf(),
        ensures
            match (r, parse_route(config)) {
                (Ok(route), Ok(rv)) => route@ == rv && route.wf(),
                (Err(ProxyError::InvalidRoute(m)), Err(e)) => m@ == e,
                _ => false,
            },
    {
        let RouteConfig { route_match, action } = config;
        let path = match route_match.path {
            Some(p) => match parse_path_exec(p.as_str()) {
                Ok(path) => Some(path),
                Err(m) => {
                    return Err(ProxyError::InvalidRoute(m));
                },
            },
            None => None,
        };
        Ok(Route { host: route_match.host, path, action })
    }

    /// Matches a request against this route. The host must equal the route's
    /// host when the route has one; the path must match segment by segment,
    /// with surrounding slashes and whitespace ignored.
    #[verifier::loop_isolation(false)]
    pub fn matches(&self, request_host: Option<&str>, request_path: &str) -> (r: Option<RouteMatch>)
        requires
            self.wf(),
        ensures
            opt_match_view(r) == route_match(self@, match request_host {
                Some(h) => Some(h@),
                None => None,
            }, request_path@),
            r matches Some(m) ==> m.params.wf() && m.action.wf(),
    {
        let ghost host_v = match request_host {
            Some(h) => Some(h@),
            None => None,
        };
        match &self.host {
            Some(h) => {
                if !opt_str_eq(Some(h.as_str()), request_host) {
                    return None;
                }
            },
            None => {},
        }
        let mut params: StrMap<String> = StrMap::new();
        assert(params.str_view() =~= Map::<Seq<char>, Seq<char>>::empty());
        match &self.path {
            None => {
                return Some(RouteMatch { params, action: self.action.clone() });
            },
            Some(path) => {
                let req = request_segment_strings(request_path);
                let ghost reqv = request_segments(request_path@);
                let ghost segs = path@.0;
                let mut i: usize = 0;
                while i < path.segments.len()
                    invariant
                        segs == path.segments@.map_values(|s: PathSegment| s@),
                        req@.len() == reqv.len(),
                        forall|k: int| 0 <= k < req@.len() ==> (#[trigger] req@[k])@ == reqv[k],
                        i <= path.segments@.len(),
                        i <= req@.len(),
                        forall|k: int|
                            0 <= k < i ==> (#[trigger] segs[k] matches SegmentView::Static(s)
                                ==> reqv[k] == s),
                        params.wf(),
                        params.str_view() == params_of(segs, reqv, i as int),
                    decreases path.segments@.len() - i,
                {
                    assert(segs[i as int] == path.segments@[i as int]@);
                    if i >= req.len() {
                        return None;
                    }
                    match &path.segments[i] {
                        PathSegment::Static(s) => {
                            if req[i] != *s {
                                return None;
                            }
                        },
                        PathSegment::Param(name) => {
                            let ghost before = params.str_view();
                            params.insert(name.clone(), req[i].clone());
                            assert(params.str_view() =~= before.insert(name@, req@[i as int]@));
                        },
                    }
                    i = i + 1;
                }
                if path.has_trailing_splat || i == req.len() {
                    Some(RouteMatch { params, action: self.action.clone() })
                } else {
                    None
                }
            },
        }
    }
}

/// The segments of a request path, as strings.
fn request_segment_strings(path: &str) -> (r: Vec<String>)
    ensures
        r@.len() == request_segments(path@).len(),
        forall|k: int| 0 <= k < r@.len() ==> (#[trigger] r@[k])@ == request_segments(path@)[k],
{
    let v = chars_of(path);
    let (c, d) = normalize_range(&v);
    let mut out: Vec<String> = Vec::new();
    if c == d {
        return out;
    }
    let ranges = split_ranges(&v, c, d, '/');
    let ghost parts = split_on(v@.subrange(c as int, d as int), '/');
    let mut i: usize = 0;
    while i < ranges.len()
        invariant
            ranges@.len() == parts.len(),
            c <= d <= v@.len(),
            forall|k: int|
                0 <= k < ranges@.len() ==> {
                    &&& c <= (#[trigger] ranges@[k]).0 <= ranges@[k].1 <= d
                    &&& v@.subrange(ranges@[k].0 as int, ranges@[k].1 as int) == parts[k]
                },
            i <= ranges@.len(),
            out@.len() == i,
            forall|k: int| 0 <= k < i ==> (#[trigger] out@[k])@ == parts[k],
        decreases ranges@.len() - i,
    {
        let (lo, hi) = ranges[i];
        out.push(sub_string(&v, lo, hi));
        i = i + 1;
    }
    out
}

/// The parsed routes of the proxy, in configuration order.
pub struct RouteActions {
    routes: Vec<Route>,
}

/// The routes a configuration parses to, or the first error message.
pub open spec fn parse_routes(configs: Seq<RouteConfig>) -> Result<Seq<RouteView>, Seq<char>>
    decreases configs.len(),
{
    if configs.len() == 0 {
        Ok(Seq::empty())
    } else {
        match parse_routes(configs.drop_last()) {
            Err(e) => Err(e),
            Ok(rs) => match parse_route(configs.last()) {
                Ok(r) => Ok(rs.push(r)),
                Err(e) => Err(e),
            },
        }
    }
}

proof fn lemma_parse_routes_err(cfgs: Seq<RouteConfig>, i: int)
    requires
        0 <= i <= cfgs.len(),
        parse_routes(cfgs.take(i)) is Err,
    ensures
        parse_routes(cfgs) == parse_routes(cfgs.take(i)),
    decreases cfgs.len() - i,
{
    if i < cfgs.len() {
        assert(cfgs.take(i + 1).drop_last() =~= cfgs.take(i));
        lemma_parse_routes_err(cfgs, i + 1);
    } else {
        assert(cfgs.take(i) =~= cfgs);
    }
}

impl RouteActions {
    pub closed spec fn view(&self) -> Seq<RouteView> {
        self.routes@.map_values(|r: Route| r@)
    }

    pub closed spec fn wf(&self) -> bool {
        forall|i: int| 0 <= i < self.routes@.len() ==> (#[trigger] self.routes@[i]).wf()
    }

    /// Parses every route, stopping at the first invalid one.
    #[verifier::loop_isolation(false)]
    pub fn try_new(route_config: Vec<RouteConfig>) -> (r: Result<Self, ProxyError>)
        requires
            forall|i: int| 0 <= i < route_config@.len() ==> (#[trigger] route_config@[i]).action.wf(),
        ensures
            match (r, parse_routes(route_config@)) {
                (Ok(ra), Ok(rs)) => ra@ == rs && ra.wf(),
                (Err(ProxyError::InvalidRoute(m)), Err(e)) => m@ == e,
                _ => false,
            },
    {
        let ghost cfgs = route_config@;
        assert(cfgs.len() == route_config.len());
        let mut remaining = route_config;
        let mut routes: Vec<Route> = Vec::new();
        let mut i: usize = 0;
        assert(remaining@ =~= cfgs.skip(0));
        assert(cfgs.take(0) =~= Seq::<RouteConfig>::empty());
        assert(routes@.map_values(|r: Route| r@) =~= Seq::<RouteView>::empty());
        while remaining.len() > 0
            invariant
                i <= cfgs.len(),
                cfgs.len() <= usize::MAX,
                remaining@ == cfgs.skip(i as int),
                forall|k: int| 0 <= k < cfgs.len() ==> (#[trigger] cfgs[k]).action.wf(),
                forall|k: int| 0 <= k < routes@.len() ==> (#[trigger] routes@[k]).wf(),
                parse_routes(cfgs.take(i as int)) == Ok::<Seq<RouteView>, Seq<char>>(
                    routes@.map_values(|r: Route| r@),
                ),
            decreases remaining@.len(),
        {
            assert(remaining@.len() == cfgs.len() - i);
            let cfg = remaining.remove(0);
            assert(cfg == cfgs[i as int]);
            assert(cfgs.take((i + 1) as int).drop_last() =~= cfgs.take(i as int));
            assert(cfgs.take((i + 1) as int).last() == cfgs[i as int]);
            match Route::try_from(cfg) {
                Ok(route) => {
                    routes.push(route);
                    assert(routes@.map_values(|r: Route| r@) =~= parse_routes(
                        cfgs.take(i as int),
                    )->Ok_0.push(routes@.last()@));
                },
                Err(e) => {
                    proof {
                        lemma_parse_routes_err(cfgs, (i + 1) as int);
                    }
                    return Err(e);
                },
            }
            i = i + 1;
            assert(remaining@ =~= cfgs.skip(i as int));
        }
        assert(cfgs.take(i as int) =~= cfgs);
        Ok(RouteActions { routes })
    }

    /// Matches a request to the routes and returns the result of the first
    /// route that matches, if any. `host` is the host of the request URI,
    /// or else its `Host` header.
    #[verifier::loop_isolation(false)]
    pub fn resolve(&self, host: Option<&str>, path: &str) -> (r: Option<RouteMatch>)
        requires
            self.wf(),
        ensures
            opt_match_view(r) == first_match(self@, match host {
                Some(h) => Some(h@),
                None => None,
            }, path@),
            r matches Some(m) ==> m.params.wf() && m.action.wf(),
    {
        let ghost host_v = match host {
            Some(h) => Some(h@),
            None => None,
        };
        let mut i: usize = 0;
        assert(self@.skip(0) =~= self@);
        while i < self.routes.len()
            invariant
                self.wf(),
                i <= self.routes@.len(),
                first_match(self@, host_v, path@) == first_match(self@.skip(i as int), host_v, path@),
            decreases self.routes@.len() - i,
        {
            assert(self@.skip(i as int)[0] == self.routes@[i as int]@);
            assert(self@.skip(i as int).drop_first() =~= self@.skip((i + 1) as int));
            assert(first_match(self@.skip(i as int), host_v, path@) == match route_match(
                self.routes@[i as int]@,
                host_v,
                path@,
            ) {
                Some(m) => Some(m),
                None => first_match(self@.skip((i + 1) as int), host_v, path@),
            });
            match self.routes[i].matches(host, path) {
                Some(m) => {
                    return Some(m);
                },
                None => {},
            }
            i = i + 1;
        }
        None
    }
}

/// The host of a request: the URI's host when present, else the `Host`
/// header.
pub fn request_host<'a>(uri_host: Option<&'a str>, host_header: Option<&'a str>) -> (r: Option<&'a str>)
    ensures
        r == (match uri_host {
            Some(h) => Some(h),
            None => host_header,
        }),
{
    match uri_host {
        Some(h) => Some(h),
        None => host_header,
    }
}

} // verus!
