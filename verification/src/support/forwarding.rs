//! The headers of a message passed on by an intermediary: those that
//! concern one connection are dropped (RFC 9110, 7.6.1) and a `Via`
//! entry names the hop (RFC 9110, 7.6.3). Header names are lower case,
//! as `http` keeps them.

use crate::support::text::{concat_str, str_eq};
use vstd::prelude::*;

verus! {

/// The name this service gives itself in `Via`.
pub const VIA_PSEUDONYM: &'static str = "synapse";

/// The HTTP version a message was received with.
#[derive(Debug, PartialEq, Eq, Structural, Clone, Copy)]
pub enum HttpVersion {
    Http09,
    Http10,
    Http11,
    Http2,
    Http3,
}

/// Headers that concern one connection and are not passed on.
pub open spec fn is_hop_by_hop(name: Seq<char>) -> bool {
    ||| name == "connection"@
    ||| name == "keep-alive"@
    ||| name == "proxy-authenticate"@
    ||| name == "proxy-authorization"@
    ||| name == "proxy-connection"@
    ||| name == "te"@
    ||| name == "trailer"@
    ||| name == "transfer-encoding"@
    ||| name == "upgrade"@
}

/// The protocol version as `Via` writes it.
pub open spec fn version_text(v: HttpVersion) -> Seq<char> {
    match v {
        HttpVersion::Http09 => "0.9"@,
        HttpVersion::Http10 => "1.0"@,
        HttpVersion::Http11 => "1.1"@,
        HttpVersion::Http2 => "2"@,
        HttpVersion::Http3 => "3"@,
    }
}

/// The `Via` entry this hop adds.
pub open spec fn via_entry(v: HttpVersion) -> Seq<char> {
    version_text(v) + " "@ + VIA_PSEUDONYM@
}

/// The headers passed on: those that do not concern one connection, in
/// their order, then this hop's `Via` entry.
pub open spec fn forwarded(headers: Seq<(String, String)>, v: HttpVersion) -> (Seq<(String, String)>, Seq<char>) {
    (headers.filter(|h: (String, String)| !is_hop_by_hop(h.0@)), via_entry(v))
}

pub(crate) fn hop_by_hop_name(name: &str) -> (b: bool)
    ensures
        b == is_hop_by_hop(name@),
{
    str_eq(name, "connection") || str_eq(name, "keep-alive") || str_eq(name, "proxy-authenticate")
        || str_eq(name, "proxy-authorization") || str_eq(name, "proxy-connection") || str_eq(name, "te")
        || str_eq(name, "trailer") || str_eq(name, "transfer-encoding") || str_eq(name, "upgrade")
}

/// The version's text in `Via`.
pub fn version_str(v: HttpVersion) -> (s: &'static str)
    ensures
        s@ == version_text(v),
{
    match v {
        HttpVersion::Http09 => "0.9",
        HttpVersion::Http10 => "1.0",
        HttpVersion::Http11 => "1.1",
        HttpVersion::Http2 => "2",
        HttpVersion::Http3 => "3",
    }
}

/// Drops the headers that concern one connection, keeping the others in
/// their order.
pub fn filter_hop_by_hop(headers: Vec<(String, String)>) -> (r: Vec<(String, String)>)
    ensures
        r@ == headers@.filter(|h: (String, String)| !is_hop_by_hop(h.0@)),
{
    let ghost hs = headers@;
    let ghost pred = |h: (String, String)| !is_hop_by_hop(h.0@);
    let mut out: Vec<(String, String)> = Vec::new();
    let mut rest = headers;
    let total = rest.len();
    let mut i: usize = 0;
    proof {
        reveal(Seq::filter);
        assert(hs.take(0) =~= Seq::<(String, String)>::empty());
        assert(hs.skip(0) =~= hs);
    }
    while rest.len() > 0
        invariant
            total == hs.len(),
            i <= total,
            rest@ == hs.skip(i as int),
            pred == (|h: (String, String)| !is_hop_by_hop(h.0@)),
            out@ == hs.take(i as int).filter(pred),
        decreases rest@.len(),
    {
        let h = rest.remove(0);
        proof {
            broadcast use Seq::lemma_filter_push;

            assert(hs.take(i + 1) =~= hs.take(i as int).push(hs[i as int]));
            assert(rest@ =~= hs.skip(i + 1));
        }
        if !hop_by_hop_name(h.0.as_str()) {
            out.push(h);
        }
        i = i + 1;
    }
    assert(hs.take(i as int) =~= hs);
    out
}

/// Adds this hop's `Via` entry after the other headers.
pub fn add_via_header(headers: &mut Vec<(String, String)>, version: HttpVersion)
    ensures
        final(headers)@.len() == old(headers)@.len() + 1,
        final(headers)@.drop_last() == old(headers)@,
        final(headers)@.last().0@ == "via"@,
        final(headers)@.last().1@ == via_entry(version),
{
    let with_space = concat_str(version_str(version), " ");
    let value = concat_str(with_space.as_str(), VIA_PSEUDONYM);
    headers.push(("via".to_owned(), value));
    assert(headers@.drop_last() =~= old(headers)@);
}

/// The headers of a message as this hop passes it on, in either
/// direction: without those that concern one connection, and with this
/// hop's `Via` entry last.
pub fn forward_headers(headers: Vec<(String, String)>, version: HttpVersion) -> (r: Vec<(String, String)>)
    ensures
        r@.drop_last() == forwarded(headers@, version).0,
        r@.len() == forwarded(headers@, version).0.len() + 1,
        r@.last().0@ == "via"@,
        r@.last().1@ == forwarded(headers@, version).1,
{
    let mut out = filter_hop_by_hop(headers);
    add_via_header(&mut out, version);
    out
}

/// A message that passes this hop keeps no header that concerns one
/// connection, keeps every other header, and names the hop once more in
/// `Via` than it did.
pub proof fn law_forwarding_is_transparent(headers: Seq<(String, String)>, v: HttpVersion, h: (String, String))
    ensures
        headers.contains(h) && !is_hop_by_hop(h.0@) ==> forwarded(headers, v).0.contains(h),
        !(exists|i: int| 0 <= i < forwarded(headers, v).0.len() && is_hop_by_hop(#[trigger] forwarded(headers, v).0[i].0@)),
{
    let pred = |x: (String, String)| !is_hop_by_hop(x.0@);
    let f = headers.filter(pred);
    if headers.contains(h) && !is_hop_by_hop(h.0@) {
        let i = choose|i: int| 0 <= i < headers.len() && headers[i] == h;
        headers.lemma_filter_contains(pred, i);
    }
    assert forall|i: int| 0 <= i < f.len() implies !is_hop_by_hop(#[trigger] f[i].0@) by {
        headers.lemma_filter_pred(pred, i);
    }
}

/// Only the connection-specific headers of RFC 9110 are dropped: a header
/// named anything else (`authorization`, `cookie`, ...) is passed on, and
/// the headers passed on keep their order.
pub proof fn law_other_headers_pass(headers: Seq<(String, String)>, v: HttpVersion)
    ensures
        forwarded(headers, v).0 == headers.filter(
            |h: (String, String)|
                !(h.0@ == "connection"@ || h.0@ == "keep-alive"@ || h.0@ == "proxy-authenticate"@
                    || h.0@ == "proxy-authorization"@ || h.0@ == "proxy-connection"@ || h.0@ == "te"@
                    || h.0@ == "trailer"@ || h.0@ == "transfer-encoding"@ || h.0@ == "upgrade"@),
        ),
        forall|h: (String, String)|
            headers.contains(h) && h.0@ != "connection"@ && h.0@ != "keep-alive"@
                && h.0@ != "proxy-authenticate"@ && h.0@ != "proxy-authorization"@
                && h.0@ != "proxy-connection"@ && h.0@ != "te"@ && h.0@ != "trailer"@
                && h.0@ != "transfer-encoding"@ && h.0@ != "upgrade"@
                ==> #[trigger] forwarded(headers, v).0.contains(h),
{
    let p1 = |h: (String, String)| !is_hop_by_hop(h.0@);
    let p2 = |h: (String, String)|
        !(h.0@ == "connection"@ || h.0@ == "keep-alive"@ || h.0@ == "proxy-authenticate"@
            || h.0@ == "proxy-authorization"@ || h.0@ == "proxy-connection"@ || h.0@ == "te"@
            || h.0@ == "trailer"@ || h.0@ == "transfer-encoding"@ || h.0@ == "upgrade"@);
    assert(p1 =~= p2);
    assert forall|h: (String, String)|
        headers.contains(h) && h.0@ != "connection"@ && h.0@ != "keep-alive"@
            && h.0@ != "proxy-authenticate"@ && h.0@ != "proxy-authorization"@
            && h.0@ != "proxy-connection"@ && h.0@ != "te"@ && h.0@ != "trailer"@
            && h.0@ != "transfer-encoding"@ && h.0@ != "upgrade"@
        implies #[trigger] forwarded(headers, v).0.contains(h) by {
        let i = choose|i: int| 0 <= i < headers.len() && headers[i] == h;
        headers.lemma_filter_contains(p1, i);
    }
}

} // verus!
