//! Three-way comparison of numbers and of character sequences.

use crate::support::text::chars_of;
use vstd::prelude::*;

verus! {

/// The outcome of a three-way comparison.
#[derive(Debug, PartialEq, Eq, Clone, Copy)]
pub enum Comparison {
    Less,
    Equal,
    Greater,
}

pub open spec fn flip(c: Comparison) -> Comparison {
    match c {
        Comparison::Less => Comparison::Greater,
        Comparison::Equal => Comparison::Equal,
        Comparison::Greater => Comparison::Less,
    }
}

pub open spec fn nat_order(a: nat, b: nat) -> Comparison {
    if a < b {
        Comparison::Less
    } else if a > b {
        Comparison::Greater
    } else {
        Comparison::Equal
    }
}

/// Lexicographic order of character sequences, which is the order of
/// `String`s (UTF-8 byte order follows code point order).
pub open spec fn lex_order(a: Seq<char>, b: Seq<char>) -> Comparison
    decreases a.len(),
{
    if a.len() == 0 && b.len() == 0 {
        Comparison::Equal
    } else if a.len() == 0 {
        Comparison::Less
    } else if b.len() == 0 {
        Comparison::Greater
    } else if a[0] < b[0] {
        Comparison::Less
    } else if a[0] > b[0] {
        Comparison::Greater
    } else {
        lex_order(a.drop_first(), b.drop_first())
    }
}

pub fn u64_order(a: u64, b: u64) -> (r: Comparison)
    ensures
        r == nat_order(a as nat, b as nat),
{
    if a < b {
        Comparison::Less
    } else if a > b {
        Comparison::Greater
    } else {
        Comparison::Equal
    }
}

/// Compares two strings as `String::cmp` does.
pub fn lex_compare(a: &String, b: &String) -> (r: Comparison)
    ensures
        r == lex_order(a@, b@),
{
    let x = chars_of(a.as_str());
    let y = chars_of(b.as_str());
    let mut i: usize = 0;
    assert(x@.skip(0) =~= x@);
    assert(y@.skip(0) =~= y@);
    while i < x.len() && i < y.len()
        invariant
            i <= x@.len(),
            i <= y@.len(),
            lex_order(a@, b@) == lex_order(x@.skip(i as int), y@.skip(i as int)),
            x@ == a@,
            y@ == b@,
        decreases x@.len() - i,
    {
        assert(x@.skip(i as int)[0] == x@[i as int]);
        assert(y@.skip(i as int)[0] == y@[i as int]);
        if x[i] < y[i] {
            return Comparison::Less;
        }
        if x[i] > y[i] {
            return Comparison::Greater;
        }
        assert(x@.skip(i as int).drop_first() =~= x@.skip((i + 1) as int));
        assert(y@.skip(i as int).drop_first() =~= y@.skip((i + 1) as int));
        i = i + 1;
    }
    if x.len() == y.len() {
        Comparison::Equal
    } else if i == x.len() {
        Comparison::Less
    } else {
        Comparison::Greater
    }
}

pub proof fn lemma_lex_flip(a: Seq<char>, b: Seq<char>)
    ensures
        lex_order(b, a) == flip(lex_order(a, b)),
    decreases a.len(),
{
    if a.len() > 0 && b.len() > 0 && a[0] == b[0] {
        lemma_lex_flip(a.drop_first(), b.drop_first());
    }
}

pub proof fn lemma_lex_equal(a: Seq<char>, b: Seq<char>)
    ensures
        lex_order(a, b) == Comparison::Equal <==> a == b,
    decreases a.len(),
{
    if a.len() == 0 && b.len() == 0 {
        assert(a =~= b);
    }
    if a.len() > 0 && b.len() > 0 && a[0] == b[0] {
        lemma_lex_equal(a.drop_first(), b.drop_first());
        if a.drop_first() == b.drop_first() {
            assert(a =~= seq![a[0]] + a.drop_first());
            assert(b =~= seq![b[0]] + b.drop_first());
        }
    }
}

pub proof fn lemma_lex_transitive(a: Seq<char>, b: Seq<char>, c: Seq<char>)
    requires
        lex_order(a, b) != Comparison::Greater,
        lex_order(b, c) != Comparison::Greater,
    ensures
        lex_order(a, c) != Comparison::Greater,
        lex_order(a, b) == Comparison::Less || lex_order(b, c) == Comparison::Less ==> lex_order(a, c) == Comparison::Less,
    decreases a.len(),
{
    if a.len() > 0 && b.len() > 0 && c.len() > 0 && a[0] == b[0] && b[0] == c[0] {
        lemma_lex_transitive(a.drop_first(), b.drop_first(), c.drop_first());
    }
}

} // verus!
