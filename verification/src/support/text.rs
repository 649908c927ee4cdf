//! Character-level helpers shared by the parsers and matchers: trimming,
//! splitting on a separator, prefixes, and building strings from characters.

use vstd::prelude::*;

verus! {

/// The characters that `char::is_whitespace` accepts: those with the
/// Unicode `White_Space` property.
pub open spec fn is_ws(c: char) -> bool {
    ||| c == '\t'
    ||| c == '\n'
    ||| c == '\u{b}'
    ||| c == '\u{c}'
    ||| c == '\r'
    ||| c == ' '
    ||| c == '\u{85}'
    ||| c == '\u{a0}'
    ||| c == '\u{1680}'
    ||| ('\u{2000}' <= c && c <= '\u{200a}')
    ||| c == '\u{2028}'
    ||| c == '\u{2029}'
    ||| c == '\u{202f}'
    ||| c == '\u{205f}'
    ||| c == '\u{3000}'
}

/// Executable whitespace test.
pub fn is_whitespace(c: char) -> (b: bool)
    ensures
        b == is_ws(c),
{
    c == '\t' || c == '\n' || c == '\u{b}' || c == '\u{c}' || c == '\r' || c == ' ' || c
        == '\u{85}' || c == '\u{a0}' || c == '\u{1680}' || ('\u{2000}' <= c && c <= '\u{200a}')
        || c == '\u{2028}' || c == '\u{2029}' || c == '\u{202f}' || c == '\u{205f}' || c
        == '\u{3000}'
}

/// What a trim removes from both ends: whitespace, or one given character.
#[derive(Clone, Copy)]
pub enum TrimMode {
    Whitespace,
    Char(char),
}

pub open spec fn trim_pred(m: TrimMode) -> spec_fn(char) -> bool {
    match m {
        TrimMode::Whitespace => |c: char| is_ws(c),
        TrimMode::Char(x) => |c: char| c == x,
    }
}

fn trim_test(m: TrimMode, c: char) -> (b: bool)
    ensures
        b == trim_pred(m)(c),
{
    match m {
        TrimMode::Whitespace => is_whitespace(c),
        TrimMode::Char(x) => c == x,
    }
}

/// Drops the leading characters that satisfy `p`.
pub open spec fn ltrim_by(s: Seq<char>, p: spec_fn(char) -> bool) -> Seq<char>
    decreases s.len(),
{
    if s.len() > 0 && p(s[0]) {
        ltrim_by(s.drop_first(), p)
    } else {
        s
    }
}

/// Drops the trailing characters that satisfy `p`.
pub open spec fn rtrim_by(s: Seq<char>, p: spec_fn(char) -> bool) -> Seq<char>
    decreases s.len(),
{
    if s.len() > 0 && p(s.last()) {
        rtrim_by(s.drop_last(), p)
    } else {
        s
    }
}

/// `str::trim` (with `TrimMode::Whitespace`) and `str::trim_matches(c)`
/// (with `TrimMode::Char(c)`).
pub open spec fn trim_by(s: Seq<char>, m: TrimMode) -> Seq<char> {
    rtrim_by(ltrim_by(s, trim_pred(m)), trim_pred(m))
}

/// `str::trim_end_matches(c)`.
pub open spec fn trim_end_char(s: Seq<char>, c: char) -> Seq<char> {
    rtrim_by(s, trim_pred(TrimMode::Char(c)))
}

/// Replaces the first element of `r` by `cur` followed by it.
pub open spec fn prefix_first(cur: Seq<char>, r: Seq<Seq<char>>) -> Seq<Seq<char>> {
    r.update(0, cur + r[0])
}

/// `str::split(c)`: the pieces between occurrences of `c`; the empty string
/// gives one empty piece.
pub open spec fn split_on(s: Seq<char>, c: char) -> Seq<Seq<char>>
    decreases s.len(),
{
    if s.len() == 0 {
        seq![Seq::<char>::empty()]
    } else if s[0] == c {
        seq![Seq::<char>::empty()] + split_on(s.drop_first(), c)
    } else {
        prefix_first(seq![s[0]], split_on(s.drop_first(), c))
    }
}

pub proof fn lemma_split_nonempty(s: Seq<char>, c: char)
    ensures
        split_on(s, c).len() >= 1,
    decreases s.len(),
{
    if s.len() > 0 {
        lemma_split_nonempty(s.drop_first(), c);
    }
}

/// The part of `s` before the first `c`, or all of `s` (what
/// `s.split(c).next()` gives).
pub open spec fn before_char(s: Seq<char>, c: char) -> Seq<char> {
    split_on(s, c)[0]
}

/// The first `c` in `s`, if any: the part before it and the part after it
/// (what `str::split_once(c)` gives).
pub open spec fn split_once(s: Seq<char>, c: char) -> Option<(Seq<char>, Seq<char>)>
    decreases s.len(),
{
    if s.len() == 0 {
        None
    } else if s[0] == c {
        Some((Seq::<char>::empty(), s.drop_first()))
    } else {
        match split_once(s.drop_first(), c) {
            Some((a, b)) => Some((seq![s[0]] + a, b)),
            None => None,
        }
    }
}

/// `p` is a prefix of `s`.
pub open spec fn is_prefix(p: Seq<char>, s: Seq<char>) -> bool {
    p.len() <= s.len() && s.subrange(0, p.len() as int) == p
}

/// The characters of `s`, as a vector.
pub fn chars_of(s: &str) -> (v: Vec<char>)
    ensures
        v@ == s@,
{
    broadcast use vstd::string::group_string_axioms;

    let mut v: Vec<char> = Vec::new();
    for c in it: s.chars()
        invariant
            v@ == it.seq().take(it.index() as int),
            it.seq() == s@,
    {
        v.push(c);
    }
    v
}

/// A string made of the given characters (`String: FromIterator<char>`).
#[verifier::external_body]
pub(crate) fn string_from_chars(v: &Vec<char>) -> (s: String)
    ensures
        s@ == v@,
{
    v.iter().collect()
}

/// The characters of `v` from `lo` up to `hi`, as a string.
pub fn sub_string(v: &Vec<char>, lo: usize, hi: usize) -> (s: String)
    requires
        lo <= hi <= v@.len(),
    ensures
        s@ == v@.subrange(lo as int, hi as int),
{
    let mut w: Vec<char> = Vec::new();
    let mut i = lo;
    while i < hi
        invariant
            lo <= i <= hi <= v@.len(),
            w@ == v@.subrange(lo as int, i as int),
        decreases hi - i,
    {
        w.push(v[i]);
        i = i + 1;
        assert(w@ =~= v@.subrange(lo as int, i as int));
    }
    string_from_chars(&w)
}

/// String equality on `&str`.
pub fn str_eq(a: &str, b: &str) -> (r: bool)
    ensures
        r == (a@ == b@),
{
    let x = a.to_owned();
    let y = b.to_owned();
    x == y
}

/// Optional-string equality.
pub fn opt_str_eq(a: Option<&str>, b: Option<&str>) -> (r: bool)
    ensures
        r == (match (a, b) {
            (Some(x), Some(y)) => x@ == y@,
            (None, None) => true,
            _ => false,
        }),
{
    match (a, b) {
        (Some(x), Some(y)) => str_eq(x, y),
        (None, None) => true,
        _ => false,
    }
}

/// `a` followed by `b`.
pub fn concat_str(a: &str, b: &str) -> (s: String)
    ensures
        s@ == a@ + b@,
{
    let mut v = chars_of(a);
    let w = chars_of(b);
    let mut i: usize = 0;
    let ghost a0 = v@;
    while i < w.len()
        invariant
            i <= w@.len(),
            v@ == a0 + w@.subrange(0, i as int),
        decreases w@.len() - i,
    {
        v.push(w[i]);
        i = i + 1;
        assert(v@ =~= a0 + w@.subrange(0, i as int));
    }
    assert(w@.subrange(0, w@.len() as int) =~= w@);
    string_from_chars(&v)
}

/// The range of `v[lo..hi]` left after trimming both ends.
pub fn trim_range(v: &Vec<char>, lo: usize, hi: usize, m: TrimMode) -> (r: (usize, usize))
    requires
        lo <= hi <= v@.len(),
    ensures
        lo <= r.0 <= r.1 <= hi,
        v@.subrange(r.0 as int, r.1 as int) == trim_by(v@.subrange(lo as int, hi as int), m),
{
    let ghost p = trim_pred(m);
    let mut i = lo;
    while i < hi && trim_test(m, v[i])
        invariant
            lo <= i <= hi <= v@.len(),
            p == trim_pred(m),
            ltrim_by(v@.subrange(lo as int, hi as int), p) == ltrim_by(
                v@.subrange(i as int, hi as int),
                p,
            ),
        decreases hi - i,
    {
        assert(v@.subrange(i as int, hi as int).drop_first() =~= v@.subrange(
            (i + 1) as int,
            hi as int,
        ));
        i = i + 1;
    }
    assert(ltrim_by(v@.subrange(i as int, hi as int), p) == v@.subrange(i as int, hi as int));
    let mut j = hi;
    while j > i && trim_test(m, v[j - 1])
        invariant
            lo <= i <= j <= hi <= v@.len(),
            p == trim_pred(m),
            rtrim_by(v@.subrange(i as int, hi as int), p) == rtrim_by(
                v@.subrange(i as int, j as int),
                p,
            ),
        decreases j - i,
    {
        assert(v@.subrange(i as int, j as int).drop_last() =~= v@.subrange(
            i as int,
            (j - 1) as int,
        ));
        j = j - 1;
    }
    assert(rtrim_by(v@.subrange(i as int, j as int), p) == v@.subrange(i as int, j as int));
    (i, j)
}

proof fn lemma_prefix_first_empty(r: Seq<Seq<char>>)
    requires
        r.len() >= 1,
    ensures
        prefix_first(Seq::<char>::empty(), r) == r,
{
    assert(Seq::<char>::empty() + r[0] =~= r[0]);
    assert(prefix_first(Seq::<char>::empty(), r) =~= r);
}

proof fn lemma_prefix_first_twice(cur: Seq<char>, x: char, r: Seq<Seq<char>>)
    requires
        r.len() >= 1,
    ensures
        prefix_first(cur, prefix_first(seq![x], r)) == prefix_first(cur.push(x), r),
{
    assert(cur + (seq![x] + r[0]) =~= cur.push(x) + r[0]);
    assert(prefix_first(cur, prefix_first(seq![x], r)) =~= prefix_first(cur.push(x), r));
}

/// The ranges of the pieces of `v[lo..hi]` between occurrences of `c`.
pub fn split_ranges(v: &Vec<char>, lo: usize, hi: usize, c: char) -> (r: Vec<(usize, usize)>)
    requires
        lo <= hi <= v@.len(),
    ensures
        r@.len() == split_on(v@.subrange(lo as int, hi as int), c).len(),
        forall|k: int|
            0 <= k < r@.len() ==> {
                &&& lo <= (#[trigger] r@[k]).0 <= r@[k].1 <= hi
                &&& v@.subrange(r@[k].0 as int, r@[k].1 as int) == split_on(
                    v@.subrange(lo as int, hi as int),
                    c,
                )[k]
            },
{
    let ghost s = v@.subrange(lo as int, hi as int);
    let mut out: Vec<(usize, usize)> = Vec::new();
    let mut start = lo;
    let mut i = lo;
    proof {
        lemma_split_nonempty(s, c);
        lemma_prefix_first_empty(split_on(s, c));
        assert(v@.subrange(lo as int, hi as int) =~= s);
    }
    while i < hi
        invariant
            lo <= start <= i <= hi <= v@.len(),
            s == v@.subrange(lo as int, hi as int),
            split_on(s, c) == Seq::new(
                out@.len(),
                |k: int| v@.subrange(out@[k].0 as int, out@[k].1 as int),
            ) + prefix_first(
                v@.subrange(start as int, i as int),
                split_on(v@.subrange(i as int, hi as int), c),
            ),
            forall|k: int| 0 <= k < out@.len() ==> lo <= (#[trigger] out@[k]).0 <= out@[k].1 <= hi,
        decreases hi - i,
    {
        let ghost rest = v@.subrange(i as int, hi as int);
        let ghost done = Seq::new(
            out@.len(),
            |k: int| v@.subrange(out@[k].0 as int, out@[k].1 as int),
        );
        assert(rest.drop_first() =~= v@.subrange((i + 1) as int, hi as int));
        proof {
            lemma_split_nonempty(rest.drop_first(), c);
        }
        if v[i] == c {
            let ghost cur = v@.subrange(start as int, i as int);
            out.push((start, i));
            let ghost done2 = Seq::new(
                out@.len(),
                |k: int| v@.subrange(out@[k].0 as int, out@[k].1 as int),
            );
            assert(done2 =~= done.push(cur));
            i = i + 1;
            start = i;
            proof {
                let r2 = split_on(v@.subrange(i as int, hi as int), c);
                lemma_prefix_first_empty(r2);
                assert(v@.subrange(start as int, i as int) =~= Seq::<char>::empty());
                assert(prefix_first(cur, seq![Seq::<char>::empty()] + r2) =~= seq![cur] + r2);
                assert(done + (seq![cur] + r2) =~= done2 + r2);
            }
        } else {
            let ghost cur = v@.subrange(start as int, i as int);
            proof {
                lemma_prefix_first_twice(cur, v@[i as int], split_on(rest.drop_first(), c));
                assert(cur.push(v@[i as int]) =~= v@.subrange(start as int, (i + 1) as int));
            }
            i = i + 1;
        }
    }
    proof {
        let cur = v@.subrange(start as int, hi as int);
        assert(v@.subrange(hi as int, hi as int) =~= Seq::<char>::empty());
        assert(prefix_first(cur, seq![Seq::<char>::empty()]) =~= seq![cur]);
    }
    out.push((start, hi));
    proof {
        let done = Seq::new(
            out@.len(),
            |k: int| v@.subrange(out@[k].0 as int, out@[k].1 as int),
        );
        assert(split_on(s, c) =~= done);
        assert forall|k: int| 0 <= k < out@.len() implies v@.subrange(
            (#[trigger] out@[k]).0 as int,
            out@[k].1 as int,
        ) == split_on(s, c)[k] by {
            assert(done[k] == v@.subrange(out@[k].0 as int, out@[k].1 as int));
        }
    }
    out
}

/// Whether `p` is a prefix of `s`.
pub fn starts_with(s: &Vec<char>, p: &Vec<char>) -> (b: bool)
    ensures
        b == is_prefix(p@, s@),
{
    if p.len() > s.len() {
        return false;
    }
    let mut i: usize = 0;
    while i < p.len()
        invariant
            p@.len() <= s@.len(),
            i <= p@.len(),
            forall|k: int| 0 <= k < i ==> s@[k] == p@[k],
        decreases p@.len() - i,
    {
        if s[i] != p[i] {
            assert(s@.subrange(0, p@.len() as int)[i as int] != p@[i as int]);
            return false;
        }
        i = i + 1;
    }
    assert(s@.subrange(0, p@.len() as int) =~= p@);
    true
}

/// Position of the first `c` in `v`, if any.
pub fn find_char(v: &Vec<char>, c: char) -> (r: Option<usize>)
    ensures
        match r {
            Some(i) => i < v@.len() && v@[i as int] == c && forall|k: int|
                0 <= k < i ==> v@[k] != c,
            None => forall|k: int| 0 <= k < v@.len() ==> v@[k] != c,
        },
{
    let mut i: usize = 0;
    while i < v.len()
        invariant
            i <= v@.len(),
            forall|k: int| 0 <= k < i ==> v@[k] != c,
        decreases v@.len() - i,
    {
        if v[i] == c {
            return Some(i);
        }
        i = i + 1;
    }
    None
}

/// The first piece of a split on `c` ends at the first `c`.
pub proof fn lemma_before_char(s: Seq<char>, c: char, i: int)
    requires
        0 <= i <= s.len(),
        forall|k: int| 0 <= k < i ==> s[k] != c,
        i == s.len() || s[i] == c,
    ensures
        before_char(s, c) == s.subrange(0, i),
    decreases s.len(),
{
    lemma_split_nonempty(s, c);
    if s.len() == 0 {
        assert(s.subrange(0, 0) =~= Seq::<char>::empty());
    } else if s[0] == c {
        assert(s.subrange(0, 0) =~= Seq::<char>::empty());
    } else {
        lemma_before_char(s.drop_first(), c, i - 1);
        lemma_split_nonempty(s.drop_first(), c);
        assert(seq![s[0]] + s.drop_first().subrange(0, i - 1) =~= s.subrange(0, i));
    }
}

/// `split_once` finds the first `c`.
pub proof fn lemma_split_once(s: Seq<char>, c: char, i: int)
    requires
        0 <= i <= s.len(),
        forall|k: int| 0 <= k < i ==> s[k] != c,
        i == s.len() || s[i] == c,
    ensures
        i == s.len() ==> split_once(s, c) is None,
        i < s.len() ==> split_once(s, c) == Some((s.subrange(0, i), s.subrange(i + 1, s.len() as int))),
    decreases s.len(),
{
    if s.len() == 0 {
    } else if s[0] == c {
        assert(s.subrange(0, 0) =~= Seq::<char>::empty());
        assert(s.subrange(1, s.len() as int) =~= s.drop_first());
    } else {
        lemma_split_once(s.drop_first(), c, i - 1);
        if i < s.len() {
            assert(seq![s[0]] + s.drop_first().subrange(0, i - 1) =~= s.subrange(0, i));
            assert(s.drop_first().subrange(i, s.drop_first().len() as int) =~= s.subrange(
                i + 1,
                s.len() as int,
            ));
        }
    }
}

} // verus!

verus! {

pub open spec fn is_digit(c: char) -> bool {
    '0' <= c && c <= '9'
}

pub open spec fn digit_value(c: char) -> nat {
    ((c as int) - ('0' as int)) as nat
}

/// The number a string of decimal digits denotes.
pub open spec fn digits_value(s: Seq<char>) -> nat
    decreases s.len(),
{
    if s.len() == 0 {
        0
    } else {
        digits_value(s.drop_last()) * 10 + digit_value(s.last())
    }
}

/// The digits of an unsigned number: the string without a leading `+`.
pub open spec fn unsigned_digits(s: Seq<char>) -> Seq<char> {
    if s.len() > 0 && s[0] == '+' {
        s.drop_first()
    } else {
        s
    }
}

/// `str::parse::<u64>()`: an optional `+`, then at least one decimal digit,
/// denoting a value that fits in 64 bits.
pub open spec fn parse_u64(s: Seq<char>) -> Option<nat> {
    let d = unsigned_digits(s);
    if d.len() > 0 && (forall|i: int| 0 <= i < d.len() ==> is_digit(#[trigger] d[i])) && digits_value(
        d,
    ) <= u64::MAX {
        Some(digits_value(d))
    } else {
        None
    }
}

proof fn lemma_digits_value_monotone(s: Seq<char>, i: int)
    requires
        0 <= i <= s.len(),
        forall|k: int| 0 <= k < s.len() ==> is_digit(#[trigger] s[k]),
    ensures
        digits_value(s.take(i)) <= digits_value(s),
    decreases s.len() - i,
{
    if i < s.len() {
        lemma_digits_value_monotone(s, i + 1);
        assert(s.take(i + 1).drop_last() =~= s.take(i));
        assert(digits_value(s.take(i + 1)) == digits_value(s.take(i)) * 10 + digit_value(
            s.take(i + 1).last(),
        ));
    } else {
        assert(s.take(i) =~= s);
    }
}

/// Parses a decimal `u64` as `str::parse::<u64>()` does.
#[verifier::loop_isolation(false)]
pub fn parse_u64_exec(s: &str) -> (r: Option<u64>)
    ensures
        match r {
            Some(n) => parse_u64(s@) == Some(n as nat),
            None => parse_u64(s@) is None,
        },
{
    let v = chars_of(s);
    let start: usize = if v.len() > 0 && v[0] == '+' {
        1
    } else {
        0
    };
    let ghost d = unsigned_digits(v@);
    assert(d =~= v@.subrange(start as int, v@.len() as int));
    if start == v.len() {
        return None;
    }
    let mut acc: u64 = 0;
    let mut i = start;
    assert(d.take(0) =~= Seq::<char>::empty());
    while i < v.len()
        invariant
            start <= i <= v@.len(),
            d == v@.subrange(start as int, v@.len() as int),
            forall|k: int| 0 <= k < i - start ==> is_digit(#[trigger] d[k]),
            acc as nat == digits_value(d.take(i - start)),
        decreases v@.len() - i,
    {
        let c = v[i];
        if !('0' <= c && c <= '9') {
            assert(!is_digit(d[i - start]));
            return None;
        }
        let dv = (c as u32 - '0' as u32) as u64;
        assert(d.take(i - start + 1).drop_last() =~= d.take(i - start));
        assert(d.take(i - start + 1).last() == c);
        let m = acc.checked_mul(10);
        match m {
            None => {
                assert(d.take(i - start + 1) =~= v@.subrange(start as int, i as int + 1));
                return parse_u64_overflow(&v, start, i);
            },
            Some(m) => {
                match m.checked_add(dv) {
                    None => {
                        assert(d.take(i - start + 1) =~= v@.subrange(start as int, i as int + 1));
                        return parse_u64_overflow(&v, start, i);
                    },
                    Some(n) => {
                        acc = n;
                    },
                }
            },
        }
        i = i + 1;
    }
    assert(d.take(i - start) =~= d);
    Some(acc)
}

/// Finishes a parse whose value no longer fits: the rest decides only
/// between "not all digits" and "too large", both of which are `None`.
fn parse_u64_overflow(v: &Vec<char>, start: usize, i: usize) -> (r: Option<u64>)
    requires
        start <= i < v@.len(),
        digits_value(v@.subrange(start as int, i as int + 1)) > u64::MAX,
    ensures
        r is None,
        ({
            let d = v@.subrange(start as int, v@.len() as int);
            !(d.len() > 0 && (forall|k: int| 0 <= k < d.len() ==> is_digit(#[trigger] d[k]))
                && digits_value(d) <= u64::MAX)
        }),
{
    let ghost d = v@.subrange(start as int, v@.len() as int);
    proof {
        if forall|k: int| 0 <= k < d.len() ==> is_digit(#[trigger] d[k]) {
            lemma_digits_value_monotone(d, i - start + 1);
            assert(d.take(i - start + 1) =~= v@.subrange(start as int, i as int + 1));
        }
    }
    None
}

/// `str::trim_end_matches(c)` for one character.
pub fn trim_end_matches_char(s: &str, c: char) -> (r: String)
    ensures
        r@ == trim_end_char(s@, c),
{
    let v = chars_of(s);
    let ghost p = trim_pred(TrimMode::Char(c));
    let mut n: usize = v.len();
    assert(v@.subrange(0, n as int) =~= v@);
    while n > 0 && v[n - 1] == c
        invariant
            n <= v@.len(),
            p == trim_pred(TrimMode::Char(c)),
            rtrim_by(v@, p) == rtrim_by(v@.subrange(0, n as int), p),
        decreases n,
    {
        assert(v@.subrange(0, n as int).drop_last() =~= v@.subrange(0, n - 1));
        n = n - 1;
    }
    sub_string(&v, 0, n)
}

/// The decimal digits of `n`, without leading zeros.
pub open spec fn decimal(n: nat) -> Seq<char>
    decreases n,
{
    if n < 10 {
        seq![((n + 48) as u8) as char]
    } else {
        decimal(n / 10) + seq![(((n % 10) + 48) as u8) as char]
    }
}

fn push_decimal(n: u64, out: &mut Vec<char>)
    ensures
        final(out)@ == old(out)@ + decimal(n as nat),
    decreases n,
{
    if n >= 10 {
        push_decimal(n / 10, out);
    }
    let d = (n % 10) as u8;
    out.push((d + 48) as char);
}

/// `n` written in decimal.
pub fn u64_to_decimal(n: u64) -> (s: String)
    ensures
        s@ == decimal(n as nat),
{
    let mut v: Vec<char> = Vec::new();
    push_decimal(n, &mut v);
    assert(v@ =~= decimal(n as nat));
    string_from_chars(&v)
}

} // verus!
