//! Header handling shared by the endpoint handlers.

use crate::support::forwarding::{hop_by_hop_name, is_hop_by_hop};
use crate::support::text::str_eq;
use vstd::prelude::*;

verus! {

/// Headers that describe one connection and those that describe a body
/// the router re-frames.
pub open spec fn normalized_away(name: Seq<char>) -> bool {
    is_hop_by_hop(name) || name == "content-length"@ || name == "transfer-encoding"@
}

fn is_normalized_away(name: &str) -> (b: bool)
    ensures
        b == normalized_away(name@),
{
    hop_by_hop_name(name) || str_eq(name, "content-length") || str_eq(name, "transfer-encoding")
}

/// The headers of a request or answer as they are passed on: without the
/// connection's own headers and without the body's length and transfer
/// encoding, in their order.
pub fn normalize_headers(headers: Vec<(String, String)>) -> (r: Vec<(String, String)>)
    ensures
        r@ == headers@.filter(|h: (String, String)| !normalized_away(h.0@)),
{
    let ghost hs = headers@;
    let ghost pred = |h: (String, String)| !normalized_away(h.0@);
    let mut out: Vec<(String, String)> = Vec::new();
    let mut rest = headers;
    let total = rest.len();
    let mut i: usize = 0;
    proof {
        reveal(Seq::filter);
        assert(hs.take(0) =~= Seq::<(String, String)>::empty());
        assert(hs.skip(0) =~= hs);
    }
    while rest.len() > 0
        invariant
            total == hs.len(),
            i <= total,
            rest@ == hs.skip(i as int),
            pred == (|h: (String, String)| !normalized_away(h.0@)),
            out@ == hs.take(i as int).filter(pred),
        decreases rest@.len(),
    {
        let h = rest.remove(0);
        proof {
            broadcast use Seq::lemma_filter_push;
            assert(hs.take(i + 1) =~= hs.take(i as int).push(hs[i as int]));
            assert(rest@ =~= hs.skip(i + 1));
            assert(hs.take(i as int).push(h).filter(pred) == if pred(h) {
                hs.take(i as int).filter(pred).push(h)
            } else {
                hs.take(i as int).filter(pred)
            });
        }
        if !is_normalized_away(h.0.as_str()) {
            out.push(h);
        }
        i = i + 1;
    }
    assert(hs.take(i as int) =~= hs);
    out
}

} // verus!
