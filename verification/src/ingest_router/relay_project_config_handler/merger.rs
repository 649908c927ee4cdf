//! The merged answer of all cells: configs from every cell, pending keys
//! concatenated, other fields and headers from the cell of highest
//! priority that answered.

use crate::ingest_router::relay_project_config_handler::protocol::ProjectConfigsResponse;
use crate::support::strmap::StrMap;
use crate::support::text::str_eq;
use vstd::prelude::*;

verus! {

/// Header names and values, in order.
pub type HeaderList = Vec<(String, String)>;

/// Merged results from all upstream tasks.
pub struct MergedResults {
    pub project_configs: StrMap<String>,
    pub pending_keys: Vec<String>,
    pub extra_fields: StrMap<String>,
    pub http_headers: HeaderList,
}

/// Headers that describe one connection and are not forwarded, and the
/// length of a body that the merge replaces.
pub open spec fn dropped_header(name: Seq<char>) -> bool {
    ||| name == "connection"@
    ||| name == "keep-alive"@
    ||| name == "proxy-authenticate"@
    ||| name == "proxy-authorization"@
    ||| name == "te"@
    ||| name == "trailer"@
    ||| name == "transfer-encoding"@
    ||| name == "upgrade"@
    ||| name == "content-length"@
    ||| name == "content-type"@
}

/// The headers of a merged answer: the upstream's headers without the
/// dropped ones, then the JSON content type.
pub open spec fn merged_headers(hs: Seq<(String, String)>) -> Seq<(Seq<char>, Seq<char>)> {
    hs.map_values(|h: (String, String)| (h.0@, h.1@)).filter(
        |h: (Seq<char>, Seq<char>)| !dropped_header(h.0),
    ).push(("content-type"@, "application/json"@))
}

fn is_dropped_header(name: &str) -> (b: bool)
    ensures
        b == dropped_header(name@),
{
    str_eq(name, "connection") || str_eq(name, "keep-alive") || str_eq(name, "proxy-authenticate")
        || str_eq(name, "proxy-authorization") || str_eq(name, "te") || str_eq(name, "trailer")
        || str_eq(name, "transfer-encoding") || str_eq(name, "upgrade") || str_eq(
        name,
        "content-length",
    ) || str_eq(name, "content-type")
}

pub open spec fn header_view(hs: Seq<(String, String)>) -> Seq<(Seq<char>, Seq<char>)> {
    hs.map_values(|h: (String, String)| (h.0@, h.1@))
}

impl MergedResults {
    pub open spec fn wf(&self) -> bool {
        self.project_configs.wf() && self.extra_fields.wf()
    }

    /// Nothing merged yet.
    pub fn new() -> (r: Self)
        ensures
            r.wf(),
            r.project_configs@ == Map::<Seq<char>, String>::empty(),
            r.pending_keys@ == Seq::<String>::empty(),
            r.extra_fields@ == Map::<Seq<char>, String>::empty(),
            r.http_headers@ == Seq::<(String, String)>::empty(),
    {
        MergedResults {
            project_configs: StrMap::new(),
            pending_keys: Vec::new(),
            extra_fields: StrMap::new(),
            http_headers: Vec::new(),
        }
    }

    /// Takes in the configs of a successful answer; a key seen before gets
    /// the newer config.
    pub fn merge_project_configs(&mut self, configs: StrMap<String>)
        requires
            old(self).wf(),
            configs.wf(),
        ensures
            final(self).wf(),
            final(self).project_configs@ == old(self).project_configs@.union_prefer_right(configs@),
            final(self).pending_keys == old(self).pending_keys,
            final(self).extra_fields == old(self).extra_fields,
            final(self).http_headers == old(self).http_headers,
    {
        self.project_configs.extend(configs);
    }

    /// Appends keys to the pending list.
    pub fn add_pending_keys(&mut self, keys: Vec<String>)
        ensures
            final(self).pending_keys@ == old(self).pending_keys@ + keys@,
            final(self).project_configs == old(self).project_configs,
            final(self).extra_fields == old(self).extra_fields,
            final(self).http_headers == old(self).http_headers,
    {
        let mut k = keys;
        self.pending_keys.append(&mut k);
    }

    /// Whether there is nothing to answer with although keys were asked for.
    pub fn is_empty(&self, had_keys_to_request: bool) -> (b: bool)
        requires
            self.wf(),
        ensures
            b == (self.project_configs@.len() == 0 && self.pending_keys@.len() == 0
                && had_keys_to_request),
    {
        proof {
            self.project_configs.lemma_dom();
        }
        self.project_configs.len() == 0 && self.pending_keys.len() == 0 && had_keys_to_request
    }

    /// The body and headers of the merged answer: no pending field when no
    /// key is pending; the upstream headers without those that describe
    /// the connection or the old body, and a JSON content type.
    pub fn into_response(self) -> (r: (ProjectConfigsResponse, Vec<(String, String)>))
        ensures
            r.0.project_configs == self.project_configs,
            r.0.extra_fields == self.extra_fields,
            r.0.pending_keys == (if self.pending_keys@.len() == 0 {
                None
            } else {
                Some(self.pending_keys)
            }),
            header_view(r.1@) == merged_headers(self.http_headers@),
    {
        let MergedResults { project_configs, pending_keys, extra_fields, http_headers } = self;
        let ghost hs = http_headers@;
        let ghost pred = |h: (Seq<char>, Seq<char>)| !dropped_header(h.0);
        let mut headers: Vec<(String, String)> = Vec::new();
        let mut i: usize = 0;
        proof {
            reveal(Seq::filter);
            assert(header_view(hs.take(0)) =~= Seq::<(Seq<char>, Seq<char>)>::empty());
        }
        while i < http_headers.len()
            invariant
                i <= hs.len(),
                hs == http_headers@,
                pred == (|h: (Seq<char>, Seq<char>)| !dropped_header(h.0)),
                header_view(headers@) == header_view(hs.take(i as int)).filter(pred),
            decreases hs.len() - i,
        {
            proof {
                broadcast use Seq::lemma_filter_push;
                assert(header_view(hs.take(i + 1)) =~= header_view(hs.take(i as int)).push(
                    (hs[i as int].0@, hs[i as int].1@),
                ));
            }
            let ghost elem = (hs[i as int].0@, hs[i as int].1@);
            proof {
                broadcast use Seq::lemma_filter_push;
                assert(header_view(hs.take(i as int)).push(elem).filter(pred) == if pred(elem) {
                    header_view(hs.take(i as int)).filter(pred).push(elem)
                } else {
                    header_view(hs.take(i as int)).filter(pred)
                });
            }
            if !is_dropped_header(http_headers[i].0.as_str()) {
                let ghost before = headers@;
                headers.push((http_headers[i].0.clone(), http_headers[i].1.clone()));
                assert(header_view(headers@) =~= header_view(before).push(elem));
            }
            i = i + 1;
        }
        let ghost before = headers@;
        headers.push(("content-type".to_owned(), "application/json".to_owned()));
        proof {
            assert(hs.take(i as int) =~= hs);
            assert(header_view(headers@) =~= header_view(before).push(
                ("content-type"@, "application/json"@),
            ));
        }
        let pending = if pending_keys.len() == 0 {
            None
        } else {
            Some(pending_keys)
        };
        (ProjectConfigsResponse { project_configs, pending_keys: pending, extra_fields }, headers)
    }
}

impl Default for MergedResults {
    fn default() -> (r: Self)
        ensures
            r.wf(),
            r.project_configs@ == Map::<Seq<char>, String>::empty(),
            r.pending_keys@ == Seq::<String>::empty(),
            r.extra_fields@ == Map::<Seq<char>, String>::empty(),
            r.http_headers@ == Seq::<(String, String)>::empty(),
    {
        MergedResults::new()
    }
}

} // verus!
