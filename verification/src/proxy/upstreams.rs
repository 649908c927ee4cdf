//! The named upstreams requests are forwarded to.

use crate::proxy::config::UpstreamConfig;
use crate::proxy::errors::{ProxyError, ProxyErrorView};
use crate::support::strmap::StrMap;
use vstd::prelude::*;

verus! {

/// The scheme and authority of a URL as `http::Uri` parses it, or the
/// parser's error message.
pub uninterp spec fn uri_scheme_authority(url: Seq<char>) -> Result<(Option<Seq<char>>, Option<Seq<char>>), Seq<char>>;

pub open spec fn uri_parts_view(r: Result<(Option<String>, Option<String>), String>) -> Result<
    (Option<Seq<char>>, Option<Seq<char>>),
    Seq<char>,
> {
    match r {
        Ok((s, a)) => Ok(
            (
                match s {
                    Some(x) => Some(x@),
                    None => None,
                },
                match a {
                    Some(x) => Some(x@),
                    None => None,
                },
            ),
        ),
        Err(m) => Err(m@),
    }
}

/// Parses a URL with `http::Uri` and returns its scheme and authority,
/// or the text of the parse error.
#[verifier::external_body]
fn parse_uri_parts(url: &str) -> (r: Result<(Option<String>, Option<String>), String>)
    ensures
        uri_parts_view(r) == uri_scheme_authority(url@),
{
    match url.parse::<http::Uri>() {
        Ok(u) => Ok((u.scheme_str().map(|s| s.to_owned()), u.authority().map(|a| a.to_string()))),
        Err(e) => Err(e.to_string()),
    }
}

/// Where requests for an upstream go.
#[derive(Debug, PartialEq, Eq)]
pub struct Upstream {
    pub scheme: String,
    pub authority: String,
}

/// The upstream given by a parsed URL: it needs both a scheme and an
/// authority.
pub open spec fn upstream_of(p: Result<(Option<Seq<char>>, Option<Seq<char>>), Seq<char>>) -> Result<
    (Seq<char>, Seq<char>),
    ProxyErrorView,
> {
    match p {
        Err(m) => Err(ProxyErrorView::InvalidUri(m)),
        Ok((Some(s), Some(a))) => Ok((s, a)),
        _ => Err(ProxyErrorView::InvalidUpstream),
    }
}

pub open spec fn upstream_result_view(r: Result<Upstream, ProxyError>) -> Result<(Seq<char>, Seq<char>), ProxyErrorView> {
    match r {
        Ok(u) => Ok((u.scheme@, u.authority@)),
        Err(e) => Err(e@),
    }
}

impl Upstream {
    /// The upstream for a parsed URL.
    pub fn from_uri_parts(parts: Result<(Option<String>, Option<String>), String>) -> (r: Result<Upstream, ProxyError>)
        ensures
            upstream_result_view(r) == upstream_of(uri_parts_view(parts)),
    {
        match parts {
            Err(m) => Err(ProxyError::InvalidUri(m)),
            Ok((Some(scheme), Some(authority))) => Ok(Upstream { scheme, authority }),
            _ => Err(ProxyError::InvalidUpstream),
        }
    }

    /// The upstream for a configured URL.
    pub fn try_from(config: UpstreamConfig) -> (r: Result<Upstream, ProxyError>)
        ensures
            upstream_result_view(r) == upstream_of(uri_scheme_authority(config.url@)),
    {
        Upstream::from_uri_parts(parse_uri_parts(config.url.as_str()))
    }
}

/// The upstreams of a configuration by name, a later entry replacing an
/// earlier one of the same name, or the first error.
pub open spec fn upstreams_of(configs: Seq<UpstreamConfig>) -> Result<Map<Seq<char>, (Seq<char>, Seq<char>)>, ProxyErrorView>
    decreases configs.len(),
{
    if configs.len() == 0 {
        Ok(Map::empty())
    } else {
        match upstreams_of(configs.drop_last()) {
            Err(e) => Err(e),
            Ok(m) => match upstream_of(uri_scheme_authority(configs.last().url@)) {
                Err(e) => Err(e),
                Ok(u) => Ok(m.insert(configs.last().name@, u)),
            },
        }
    }
}

proof fn lemma_upstreams_err(cfgs: Seq<UpstreamConfig>, i: int)
    requires
        0 <= i <= cfgs.len(),
        upstreams_of(cfgs.take(i)) is Err,
    ensures
        upstreams_of(cfgs) == upstreams_of(cfgs.take(i)),
    decreases cfgs.len() - i,
{
    if i < cfgs.len() {
        assert(cfgs.take(i + 1).drop_last() =~= cfgs.take(i));
        lemma_upstreams_err(cfgs, i + 1);
    } else {
        assert(cfgs.take(i) =~= cfgs);
    }
}

/// The configured upstreams, by name.
pub struct Upstreams {
    map: StrMap<Upstream>,
}

impl Upstreams {
    pub closed spec fn view(&self) -> Map<Seq<char>, (Seq<char>, Seq<char>)> {
        self.map@.map_values(|u: Upstream| (u.scheme@, u.authority@))
    }

    pub closed spec fn wf(&self) -> bool {
        self.map.wf()
    }

    /// Builds the upstreams, stopping at the first invalid URL.
    pub fn try_new(config: Vec<UpstreamConfig>) -> (r: Result<Self, ProxyError>)
        ensures
            match (r, upstreams_of(config@)) {
                (Ok(u), Ok(m)) => u@ == m && u.wf(),
                (Err(e), Err(v)) => e@ == v,
                _ => false,
            },
    {
        let ghost cfgs = config@;
        let total = config.len();
        let mut rest = config;
        let mut map: StrMap<Upstream> = StrMap::new();
        let mut i: usize = 0;
        assert(cfgs.skip(0) =~= cfgs);
        assert(map@.map_values(|u: Upstream| (u.scheme@, u.authority@)) =~= Map::<Seq<char>, (Seq<char>, Seq<char>)>::empty());
        while rest.len() > 0
            invariant
                total == cfgs.len(),
                cfgs == config@,
                i <= total,
                rest@ == cfgs.skip(i as int),
                map.wf(),
                upstreams_of(cfgs.take(i as int)) == Ok::<Map<Seq<char>, (Seq<char>, Seq<char>)>, ProxyErrorView>(map@.map_values(|u: Upstream| (u.scheme@, u.authority@))),
            decreases rest@.len(),
        {
            let c = rest.remove(0);
            proof {
                assert(cfgs.take(i + 1).drop_last() =~= cfgs.take(i as int));
                assert(cfgs.take(i + 1).last() == cfgs[i as int]);
                assert(rest@ =~= cfgs.skip(i + 1));
            }
            let name = c.name.clone();
            let ghost cu = c.url@;
            assert(cu == cfgs[i as int].url@);
            match Upstream::try_from(c) {
                Ok(u) => {
                    let ghost before = map@;
                    map.insert(name, u);
                    assert(map@.map_values(|u: Upstream| (u.scheme@, u.authority@)) =~= before.map_values(
                        |u: Upstream| (u.scheme@, u.authority@),
                    ).insert(cfgs[i as int].name@, (u.scheme@, u.authority@)));
                },
                Err(e) => {
                    proof {
                        assert(upstream_of(uri_scheme_authority(cu)) == Err::<(Seq<char>, Seq<char>), ProxyErrorView>(e@));
                        assert(upstreams_of(cfgs.take(i + 1)) == Err::<Map<Seq<char>, (Seq<char>, Seq<char>)>, ProxyErrorView>(e@));
                        lemma_upstreams_err(cfgs, i + 1);
                    }
                    return Err(e);
                },
            }
            i = i + 1;
        }
        assert(cfgs.take(i as int) =~= cfgs);
        Ok(Upstreams { map })
    }

    /// The upstream of the given name.
    pub fn get(&self, upstream: &str) -> (r: Option<&Upstream>)
        requires
            self.wf(),
        ensures
            match r {
                Some(u) => self@.contains_key(upstream@) && self@[upstream@] == (u.scheme@, u.authority@),
                None => !self@.contains_key(upstream@),
            },
    {
        self.map.get(upstream)
    }
}

} // verus!
