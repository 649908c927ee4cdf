//! The rule-based proxy server's decisions: where a request goes, what it
//! is forwarded with, and what the client hears when it cannot be.

use crate::proxy::config::opt_view;
use crate::proxy::rules_engine::{find_destination_spec, IncomingRequest, Route, RulesEngine};
use crate::support::text::{concat_str, str_eq};
use vstd::prelude::*;

verus! {

/// What to do with a request.
#[derive(Debug, PartialEq, Eq)]
pub enum ServerDecision {
    /// Send it to this URI.
    Forward(String),
    /// Answer with this status and body.
    Respond(u16, String),
}

/// Headers removed before a request is forwarded.
pub open spec fn removed_header(name: Seq<char>) -> bool {
    ||| name == "connection"@
    ||| name == "proxy-connection"@
    ||| name == "te"@
    ||| name == "trailer"@
    ||| name == "transfer-encoding"@
    ||| name == "upgrade"@
}

/// A proxy server driven by host and path rules.
pub struct ProxyServer {
    rules_engine: RulesEngine,
}

impl ProxyServer {
    pub closed spec fn routes(&self) -> Seq<Route> {
        self.rules_engine.routes@
    }

    pub fn new(routes: Vec<Route>) -> (s: Self)
        ensures
            s.routes() == routes@,
    {
        ProxyServer { rules_engine: RulesEngine::new(routes) }
    }

    /// Where a request goes: the destination of the first rule for its
    /// `Host` header (empty when absent) and path, followed by the
    /// request's path and query; not found when no rule applies.
    pub fn handle_request(&self, host: Option<&str>, path: &str, path_and_query: Option<&str>) -> (d: ServerDecision)
        ensures
            match find_destination_spec(self.routes(), match host {
                Some(h) => h@,
                None => Seq::empty(),
            }, path@) {
                Some(dest) => d matches ServerDecision::Forward(u) && u@ == dest + match path_and_query {
                    Some(pq) => pq@,
                    None => Seq::empty(),
                },
                None => d matches ServerDecision::Respond(s, b) && s == 404 && b@ == "Not Found"@,
            },
    {
        proof {
            reveal_strlit("");
        }
        let h = match host {
            Some(x) => x,
            None => "",
        };
        let request = IncomingRequest { host: h, path };
        assert(request.host@ == match host {
            Some(x) => x@,
            None => Seq::<char>::empty(),
        });
        match self.rules_engine.find_destination(&request) {
            Some(destination) => {
                let pq = match path_and_query {
                    Some(x) => x,
                    None => "",
                };
                ServerDecision::Forward(concat_str(destination.as_str(), pq))
            },
            None => ServerDecision::Respond(404, "Not Found".to_owned()),
        }
    }

    /// The answer when forwarding failed.
    pub fn forward_failure() -> (r: (u16, String))
        ensures
            r.0 == 502 && r.1@ == "Bad Gateway"@,
    {
        (502, "Bad Gateway".to_owned())
    }

    /// The request's headers without those that concern one connection.
    pub fn forwarded_headers(headers: Vec<(String, String)>) -> (r: Vec<(String, String)>)
        ensures
            r@ == headers@.filter(|h: (String, String)| !removed_header(h.0@)),
    {
        let ghost hs = headers@;
        let ghost pred = |h: (String, String)| !removed_header(h.0@);
        let mut out: Vec<(String, String)> = Vec::new();
        let mut rest = headers;
        let total = rest.len();
        let mut i: usize = 0;
        proof {
            reveal(Seq::filter);
            assert(hs.take(0) =~= Seq::<(String, String)>::empty());
            assert(hs.skip(0) =~= hs);
        }
        while rest.len() > 0
            invariant
                total == hs.len(),
                i <= total,
                rest@ == hs.skip(i as int),
                pred == (|h: (String, String)| !removed_header(h.0@)),
                out@ == hs.take(i as int).filter(pred),
            decreases rest@.len(),
        {
            let h = rest.remove(0);
            proof {
                broadcast use Seq::lemma_filter_push;
                assert(hs.take(i + 1) =~= hs.take(i as int).push(hs[i as int]));
                assert(rest@ =~= hs.skip(i + 1));
                assert(hs.take(i as int).push(h).filter(pred) == if pred(h) {
                    hs.take(i as int).filter(pred).push(h)
                } else {
                    hs.take(i as int).filter(pred)
                });
            }
            let n = h.0.as_str();
            let removed = str_eq(n, "connection") || str_eq(n, "proxy-connection") || str_eq(n, "te")
                || str_eq(n, "trailer") || str_eq(n, "transfer-encoding") || str_eq(n, "upgrade");
            if !removed {
                out.push(h);
            }
            i = i + 1;
        }
        assert(hs.take(i as int) =~= hs);
        out
    }
}

} // verus!
