//! Cursors of the control plane's change feed: a timestamp and the id of
//! the last row seen. Cursors are ordered by timestamp, then by id, with
//! ids compared as numbers when both are numeric.

use crate::support::order::{
    flip, lemma_lex_equal, lemma_lex_flip, lemma_lex_transitive, lex_order, lex_compare, nat_order,
    u64_order, Comparison,
};
use crate::support::text::{parse_u64, parse_u64_exec};
use std::cmp::Ordering;
use vstd::prelude::*;

verus! {

#[verifier::external_type_specification]
#[verifier::external_body]
pub struct ExDecodeError(base64::DecodeError);

#[verifier::external_type_specification]
#[verifier::external_body]
pub struct ExJsonError(serde_json::Error);

/// Why a cursor's text could not be read.
#[derive(Debug)]
pub enum CursorError {
    /// The text is not valid base64.
    Base64(base64::DecodeError),
    /// The decoded bytes are not a cursor's JSON.
    Json(serde_json::Error),
}

/// Standard base64 (with padding), as `base64`'s `STANDARD` decodes it.
pub uninterp spec fn base64_standard_decoded(s: Seq<char>) -> Option<Seq<u8>>;

/// Decodes with `STANDARD.decode`.
#[verifier::external_body]
fn decode_base64_standard(s: &str) -> (r: Result<Vec<u8>, base64::DecodeError>)
    ensures
        match r {
            Ok(v) => base64_standard_decoded(s@) == Some(v@),
            Err(_) => base64_standard_decoded(s@) is None,
        },
{
    base64::Engine::decode(&base64::engine::general_purpose::STANDARD, s.as_bytes())
}

/// A position in the control plane's change feed.
#[derive(Debug, PartialEq, Eq)]
pub struct Cursor {
    /// Seconds since 1970-01-01 00:00:00 UTC.
    pub updated_at: u64,
    pub id: String,
}

/// Order of ids: numeric when both parse as `u64`, else lexicographic.
pub open spec fn id_order(a: Seq<char>, b: Seq<char>) -> Comparison {
    match (parse_u64(a), parse_u64(b)) {
        (Some(x), Some(y)) => nat_order(x, y),
        _ => lex_order(a, b),
    }
}

/// Order of cursors: by timestamp, then by id.
pub open spec fn cursor_order(a: Cursor, b: Cursor) -> Comparison {
    if a.updated_at < b.updated_at {
        Comparison::Less
    } else if a.updated_at > b.updated_at {
        Comparison::Greater
    } else {
        id_order(a.id@, b.id@)
    }
}

pub open spec fn to_ordering(c: Comparison) -> Ordering {
    match c {
        Comparison::Less => Ordering::Less,
        Comparison::Equal => Ordering::Equal,
        Comparison::Greater => Ordering::Greater,
    }
}

fn to_ordering_exec(c: Comparison) -> (o: Ordering)
    ensures
        o == to_ordering(c),
{
    match c {
        Comparison::Less => Ordering::Less,
        Comparison::Equal => Ordering::Equal,
        Comparison::Greater => Ordering::Greater,
    }
}

impl Cursor {
    /// The JSON bytes a cursor's text encodes: the text is standard base64.
    pub fn decode_text(s: &str) -> (r: Result<Vec<u8>, CursorError>)
        ensures
            match r {
                Ok(v) => base64_standard_decoded(s@) == Some(v@),
                Err(e) => e is Base64 && base64_standard_decoded(s@) is None,
            },
    {
        match decode_base64_standard(s) {
            Ok(v) => Ok(v),
            Err(e) => Err(CursorError::Base64(e)),
        }
    }
}

impl Cursor {
    /// Compares two cursors: by `updated_at`, then by id. Ids are compared
    /// as numbers when both parse as `u64` (so "9" comes before "10"), and
    /// as strings otherwise.
    pub fn compare(&self, other: &Cursor) -> (r: Comparison)
        ensures
            r == cursor_order(*self, *other),
    {
        if self.updated_at < other.updated_at {
            Comparison::Less
        } else if self.updated_at > other.updated_at {
            Comparison::Greater
        } else {
            match (parse_u64_exec(self.id.as_str()), parse_u64_exec(other.id.as_str())) {
                (Some(x), Some(y)) => u64_order(x, y),
                _ => lex_compare(&self.id, &other.id),
            }
        }
    }
}

impl PartialOrd for Cursor {
    fn partial_cmp(&self, other: &Cursor) -> (r: Option<Ordering>)
        ensures
            r == Some(to_ordering(cursor_order(*self, *other))),
    {
        Some(to_ordering_exec(self.compare(other)))
    }
}

impl vstd::std_specs::cmp::PartialOrdSpecImpl for Cursor {
    open spec fn obeys_partial_cmp_spec() -> bool {
        true
    }

    open spec fn partial_cmp_spec(&self, other: &Cursor) -> Option<Ordering> {
        Some(to_ordering(cursor_order(*self, *other)))
    }
}

/// The order is antisymmetric: comparing the other way round gives the
/// reverse answer.
pub proof fn law_cursor_order_flip(a: Cursor, b: Cursor)
    ensures
        cursor_order(b, a) == flip(cursor_order(a, b)),
{
    lemma_lex_flip(a.id@, b.id@);
}

/// A cursor with an earlier timestamp is before one with a later timestamp,
/// whatever the ids.
pub proof fn law_cursor_timestamp_first(a: Cursor, b: Cursor)
    requires
        a.updated_at < b.updated_at,
    ensures
        cursor_order(a, b) == Comparison::Less,
{
}

/// Two cursors of which one id is not numeric compare equal exactly when
/// their timestamps and ids are equal.
pub proof fn law_cursor_equal_non_numeric(a: Cursor, b: Cursor)
    requires
        parse_u64(a.id@) is None || parse_u64(b.id@) is None,
    ensures
        cursor_order(a, b) == Comparison::Equal <==> (a.updated_at == b.updated_at && a.id@ == b.id@),
{
    lemma_lex_equal(a.id@, b.id@);
}

/// Whether the ids of the cursors are all numeric or all non-numeric.
pub open spec fn uniform_ids(a: Cursor, b: Cursor, c: Cursor) -> bool {
    ||| (parse_u64(a.id@) is Some && parse_u64(b.id@) is Some && parse_u64(c.id@) is Some)
    ||| (parse_u64(a.id@) is None && parse_u64(b.id@) is None && parse_u64(c.id@) is None)
}

/// The order is transitive among cursors whose ids are all numeric or all
/// non-numeric.
pub proof fn law_cursor_order_transitive(a: Cursor, b: Cursor, c: Cursor)
    requires
        uniform_ids(a, b, c),
        cursor_order(a, b) != Comparison::Greater,
        cursor_order(b, c) != Comparison::Greater,
    ensures
        cursor_order(a, c) != Comparison::Greater,
        cursor_order(a, b) == Comparison::Less || cursor_order(b, c) == Comparison::Less ==> cursor_order(a, c)
            == Comparison::Less,
{
    if a.updated_at == b.updated_at && b.updated_at == c.updated_at {
        if parse_u64(a.id@) is None {
            lemma_lex_transitive(a.id@, b.id@, c.id@);
        }
    }
}

} // verus!
