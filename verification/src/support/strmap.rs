//! An insertion-ordered map keyed by strings, kept as a vector of distinct
//! keys with their values.

use vstd::prelude::*;

verus! {

/// Map from string keys to values that remembers the order in which keys
/// were first inserted.
#[derive(Debug, PartialEq, Eq)]
pub struct StrMap<V> {
    entries: Vec<(String, V)>,
}

impl<V> StrMap<V> {
    /// The keys, in insertion order.
    pub closed spec fn key_seq(&self) -> Seq<Seq<char>> {
        Seq::new(self.entries@.len(), |i: int| self.entries@[i].0@)
    }

    /// The values, in the order of `key_seq`.
    pub closed spec fn val_seq(&self) -> Seq<V> {
        Seq::new(self.entries@.len(), |i: int| self.entries@[i].1)
    }

    /// Well-formedness: no key occurs twice.
    pub closed spec fn wf(&self) -> bool {
        self.key_seq().no_duplicates()
    }

    /// The map from keys to values.
    pub open spec fn view(&self) -> Map<Seq<char>, V> {
        Map::new(
            |k: Seq<char>| self.key_seq().contains(k),
            |k: Seq<char>| self.val_seq()[self.key_seq().index_of(k)],
        )
    }

    /// Number of entries, as a spec value.
    pub open spec fn spec_len(&self) -> nat {
        self.key_seq().len()
    }

    /// A well-formed map lists each key once.
    pub proof fn lemma_keys_distinct(&self)
        requires
            self.wf(),
        ensures
            self.key_seq().no_duplicates(),
    {
    }

    pub proof fn lemma_shape(&self)
        ensures
            self.key_seq().len() == self.val_seq().len(),
    {
    }

    /// Each stored key maps to the value stored beside it.
    pub proof fn lemma_index(&self, i: int)
        requires
            self.wf(),
            0 <= i < self.key_seq().len(),
        ensures
            self@.contains_key(self.key_seq()[i]),
            self@[self.key_seq()[i]] == self.val_seq()[i],
            self.key_seq().index_of(self.key_seq()[i]) == i,
    {
        let k = self.key_seq()[i];
        assert(self.key_seq().contains(k));
        let j = self.key_seq().index_of(k);
        assert(self.key_seq()[j] == k);
    }

    /// The domain of the map is exactly the set of stored keys, and its size
    /// is the number of entries.
    pub proof fn lemma_dom(&self)
        requires
            self.wf(),
        ensures
            self@.dom() == self.key_seq().to_set(),
            self@.dom().finite(),
            self@.len() == self.key_seq().len(),
    {
        broadcast use vstd::seq_lib::seq_to_set_is_finite;
        assert(self@.dom() =~= self.key_seq().to_set());
        self.key_seq().unique_seq_to_set();
    }

    pub fn new() -> (m: Self)
        ensures
            m.wf(),
            m.key_seq() == Seq::<Seq<char>>::empty(),
            m@ == Map::<Seq<char>, V>::empty(),
    {
        let m = StrMap { entries: Vec::new() };
        assert(m.key_seq() =~= Seq::<Seq<char>>::empty());
        assert(m@ =~= Map::<Seq<char>, V>::empty());
        m
    }

    pub fn len(&self) -> (n: usize)
        ensures
            n == self.key_seq().len(),
    {
        self.entries.len()
    }

    /// Position of `k` among the keys, if present.
    fn find(&self, k: &String) -> (r: Option<usize>)
        requires
            self.wf(),
        ensures
            match r {
                Some(i) => i < self.key_seq().len() && self.key_seq()[i as int] == k@,
                None => !self.key_seq().contains(k@),
            },
    {
        let n = self.entries.len();
        let mut i: usize = 0;
        while i < n
            invariant
                n == self.entries@.len(),
                i <= n,
                forall|j: int| 0 <= j < i ==> self.key_seq()[j] != k@,
            decreases n - i,
        {
            if self.entries[i].0 == *k {
                return Some(i);
            }
            i = i + 1;
        }
        None
    }

    pub fn key_at(&self, i: usize) -> (k: &String)
        requires
            i < self.key_seq().len(),
        ensures
            k@ == self.key_seq()[i as int],
    {
        &self.entries[i].0
    }

    pub fn value_at(&self, i: usize) -> (v: &V)
        requires
            i < self.key_seq().len(),
        ensures
            *v == self.val_seq()[i as int],
    {
        &self.entries[i].1
    }

    pub fn get(&self, k: &str) -> (r: Option<&V>)
        requires
            self.wf(),
        ensures
            match r {
                Some(v) => self@.contains_key(k@) && *v == self@[k@],
                None => !self@.contains_key(k@),
            },
    {
        let ks = k.to_owned();
        match self.find(&ks) {
            Some(i) => {
                proof {
                    self.lemma_index(i as int);
                }
                Some(&self.entries[i].1)
            },
            None => None,
        }
    }

    pub fn contains_key(&self, k: &str) -> (b: bool)
        requires
            self.wf(),
        ensures
            b == self@.contains_key(k@),
    {
        let ks = k.to_owned();
        self.find(&ks).is_some()
    }

    /// Inserts or replaces the value for `k`; a new key goes to the end.
    pub fn insert(&mut self, k: String, v: V)
        requires
            old(self).wf(),
        ensures
            final(self).wf(),
            final(self)@ == old(self)@.insert(k@, v),
            old(self)@.contains_key(k@) ==> final(self).key_seq() == old(self).key_seq(),
            !old(self)@.contains_key(k@) ==> final(self).key_seq() == old(self).key_seq().push(k@),
    {
        let ghost old_keys = self.key_seq();
        let ghost old_vals = self.val_seq();
        let ghost kv = k@;
        match self.find(&k) {
            Some(i) => {
                self.entries.set(i, (k, v));
                assert(self.key_seq() =~= old_keys);
                assert(self.val_seq() =~= old_vals.update(i as int, v));
                assert(self@ =~= old(self)@.insert(kv, v)) by {
                    assert forall|q: Seq<char>| #[trigger] self.key_seq().contains(q) implies
                        self.val_seq()[self.key_seq().index_of(q)]
                            == old(self)@.insert(kv, v)[q] by {
                        let j = self.key_seq().index_of(q);
                        self.lemma_index(j);
                        if q != kv {
                            old(self).lemma_index(j);
                        } else {
                            assert(j == i);
                        }
                    }
                }
            },
            None => {
                self.entries.push((k, v));
                assert(self.key_seq() =~= old_keys.push(kv));
                assert(self.val_seq() =~= old_vals.push(v));
                assert(self.wf()) by {
                    assert forall|a: int, b: int|
                        0 <= a < self.key_seq().len() && 0 <= b < self.key_seq().len() && a != b
                        implies self.key_seq()[a] != self.key_seq()[b] by {
                        if a < old_keys.len() && b < old_keys.len() {
                        } else if a == old_keys.len() {
                            assert(old_keys.contains(old_keys[b]));
                        } else {
                            assert(old_keys.contains(old_keys[a]));
                        }
                    }
                }
                assert(self@ =~= old(self)@.insert(kv, v)) by {
                    assert forall|q: Seq<char>| #[trigger] self.key_seq().contains(q) implies
                        self.val_seq()[self.key_seq().index_of(q)]
                            == old(self)@.insert(kv, v)[q] by {
                        let j = self.key_seq().index_of(q);
                        self.lemma_index(j);
                        if q != kv {
                            assert(j < old_keys.len());
                            old(self).lemma_index(j);
                        }
                    }
                    assert forall|q: Seq<char>| #[trigger] old(self)@.insert(kv, v).contains_key(q)
                        implies self.key_seq().contains(q) by {
                        if q == kv {
                            assert(self.key_seq()[old_keys.len() as int] == kv);
                        } else {
                            let j = old_keys.index_of(q);
                            assert(self.key_seq()[j] == q);
                        }
                    }
                }
            },
        }
    }
}


impl StrMap<String> {
    /// The map with each value taken by its characters.
    pub open spec fn str_view(&self) -> Map<Seq<char>, Seq<char>> {
        self@.map_values(|v: String| v@)
    }
}

impl<V: Clone> Clone for StrMap<V> {
    /// A copy with the same keys in the same order, each value cloned.
    fn clone(&self) -> (r: Self)
        ensures
            r.key_seq() == self.key_seq(),
            r.val_seq().len() == self.val_seq().len(),
            forall|i: int|
                0 <= i < self.val_seq().len() ==> cloned::<V>(
                    self.val_seq()[i],
                    #[trigger] r.val_seq()[i],
                ),
    {
        let mut entries: Vec<(String, V)> = Vec::new();
        let mut i: usize = 0;
        while i < self.entries.len()
            invariant
                i <= self.entries@.len(),
                entries@.len() == i,
                forall|j: int|
                    0 <= j < i ==> (#[trigger] entries@[j]).0 == self.entries@[j].0 && cloned::<V>(
                        self.entries@[j].1,
                        entries@[j].1,
                    ),
            decreases self.entries@.len() - i,
        {
            let k = self.entries[i].0.clone();
            let v = self.entries[i].1.clone();
            entries.push((k, v));
            i = i + 1;
        }
        let r = StrMap { entries };
        assert(r.key_seq() =~= self.key_seq());
        r
    }
}

impl<V> StrMap<V> {
    /// Two maps with the same keys in the same order and equal values are
    /// the same map.
    pub proof fn lemma_same_entries(a: Self, b: Self)
        requires
            a.key_seq() == b.key_seq(),
            a.val_seq() == b.val_seq(),
        ensures
            a@ == b@,
            a.wf() ==> b.wf(),
    {
        assert(a@ =~= b@);
    }
}

/// A clone of a map of strings is the same map.
pub proof fn lemma_clone_strings(a: StrMap<String>, b: StrMap<String>)
    requires
        b.key_seq() == a.key_seq(),
        b.val_seq().len() == a.val_seq().len(),
        forall|i: int| 0 <= i < a.val_seq().len() ==> cloned::<String>(a.val_seq()[i], #[trigger] b.val_seq()[i]),
    ensures
        b@ == a@,
        b.val_seq() == a.val_seq(),
        a.wf() ==> b.wf(),
{
    assert forall|i: int| 0 <= i < a.val_seq().len() implies b.val_seq()[i] == a.val_seq()[i] by {
        assert(cloned::<String>(a.val_seq()[i], b.val_seq()[i]));
    }
    assert(b.val_seq() =~= a.val_seq());
    StrMap::lemma_same_entries(a, b);
}

impl<V> StrMap<V> {
    /// Removes the entry for `k`, returning its value if there was one.
    pub fn remove(&mut self, k: &str) -> (r: Option<V>)
        requires
            old(self).wf(),
        ensures
            final(self).wf(),
            final(self)@ == old(self)@.remove(k@),
            match r {
                Some(v) => old(self)@.contains_key(k@) && v == old(self)@[k@],
                None => !old(self)@.contains_key(k@),
            },
    {
        let ks = k.to_owned();
        match self.find(&ks) {
            Some(i) => {
                proof {
                    self.lemma_index(i as int);
                }
                let ghost oks = self.key_seq();
                let ghost ovs = self.val_seq();
                let (_, v) = self.entries.remove(i);
                proof {
                    assert(self.key_seq() =~= oks.remove(i as int));
                    assert(self.val_seq() =~= ovs.remove(i as int));
                    assert forall|a: int, b: int|
                        0 <= a < b < self.key_seq().len() implies self.key_seq()[a] != self.key_seq()[b] by {
                        let a2 = if a < i { a } else { a + 1 };
                        let b2 = if b < i { b } else { b + 1 };
                        assert(oks[a2] != oks[b2]);
                    }
                    assert forall|q: Seq<char>| #[trigger] self.key_seq().contains(q) <==> (oks.contains(q) && q != k@) by {
                        if self.key_seq().contains(q) {
                            let j = choose|j: int| 0 <= j < self.key_seq().len() && self.key_seq()[j] == q;
                            let j2 = if j < i { j } else { j + 1 };
                            assert(oks[j2] == q);
                            assert(j2 != i);
                        }
                        if oks.contains(q) && q != k@ {
                            let j = choose|j: int| 0 <= j < oks.len() && oks[j] == q;
                            assert(j != i);
                            let j2 = if j < i { j } else { j - 1 };
                            assert(self.key_seq()[j2] == q);
                        }
                    }
                    assert forall|q: Seq<char>| #[trigger] self.key_seq().contains(q) implies
                        self.val_seq()[self.key_seq().index_of(q)] == old(self)@[q] by {
                        let j = self.key_seq().index_of(q);
                        self.lemma_index(j);
                        let j2 = if j < i { j } else { j + 1 };
                        old(self).lemma_index(j2);
                    }
                    assert(self@ =~= old(self)@.remove(k@));
                }
                Some(v)
            },
            None => {
                assert(self@ =~= old(self)@.remove(k@));
                None
            },
        }
    }

    /// The entries, consuming the map.
    pub fn into_entries(self) -> (v: Vec<(String, V)>)
        ensures
            v@.len() == self.key_seq().len(),
            forall|i: int|
                0 <= i < v@.len() ==> (#[trigger] v@[i]).0@ == self.key_seq()[i] && v@[i].1
                    == self.val_seq()[i],
    {
        self.entries
    }

    /// Inserts every entry of `other` in its order, replacing existing
    /// values (what `HashMap::extend` does).
    pub fn extend(&mut self, other: StrMap<V>)
        requires
            old(self).wf(),
            other.wf(),
        ensures
            final(self).wf(),
            final(self)@ == old(self)@.union_prefer_right(other@),
    {
        let ghost o = other;
        let entries = other.into_entries();
        let mut rest = entries;
        let n = rest.len();
        let mut i: usize = 0;
        let ghost start = self@;
        assert(o.key_seq().take(0) =~= Seq::<Seq<char>>::empty());
        while rest.len() > 0
            invariant
                n == o.key_seq().len(),
                o.wf(),
                i <= n,
                rest@.len() == n - i,
                forall|j: int|
                    0 <= j < rest@.len() ==> (#[trigger] rest@[j]).0@ == o.key_seq()[i + j]
                        && rest@[j].1 == o.val_seq()[i + j],
                self.wf(),
                self@ == start.union_prefer_right(
                    Map::new(
                        |k: Seq<char>| o.key_seq().take(i as int).contains(k),
                        |k: Seq<char>| o@[k],
                    ),
                ),
            decreases rest@.len(),
        {
            let (k, v) = rest.remove(0);
            proof {
                o.lemma_index(i as int);
            }
            let ghost before = self@;
            self.insert(k, v);
            proof {
                broadcast use vstd::seq_lib::lemma_seq_contains_after_push;
                let t = o.key_seq().take(i as int);
                assert(o.key_seq().take(i + 1) =~= t.push(o.key_seq()[i as int]));
                assert forall|q: Seq<char>| t.push(o.key_seq()[i as int]).contains(q) <==> (t.contains(q) || q == o.key_seq()[i as int]) by {
                    if t.push(o.key_seq()[i as int]).contains(q) && q != o.key_seq()[i as int] {
                        let j = choose|j: int| 0 <= j < t.push(o.key_seq()[i as int]).len() && t.push(o.key_seq()[i as int])[j] == q;
                        assert(t[j] == q);
                    }
                }
                assert(self@ =~= start.union_prefer_right(
                    Map::new(
                        |k: Seq<char>| o.key_seq().take(i + 1).contains(k),
                        |k: Seq<char>| o@[k],
                    ),
                ));
            }
            i = i + 1;
        }
        proof {
            assert(o.key_seq().take(n as int) =~= o.key_seq());
            assert(Map::new(
                |k: Seq<char>| o.key_seq().take(n as int).contains(k),
                |k: Seq<char>| o@[k],
            ) =~= o@);
        }
    }
}

impl<T> StrMap<Vec<T>> {
    /// Appends `x` to the list under `k`, starting a new list at the end of
    /// the map when `k` is absent.
    pub fn push_to(&mut self, k: String, x: T)
        requires
            old(self).wf(),
        ensures
            final(self).wf(),
            final(self)@.dom() == old(self)@.dom().insert(k@),
            final(self)@[k@]@ == (if old(self)@.contains_key(k@) {
                old(self)@[k@]@.push(x)
            } else {
                seq![x]
            }),
            forall|q: Seq<char>| q != k@ && #[trigger] old(self)@.contains_key(q) ==> final(self)@[q] == old(self)@[q],
            old(self)@.contains_key(k@) ==> final(self).key_seq() == old(self).key_seq(),
            !old(self)@.contains_key(k@) ==> final(self).key_seq() == old(self).key_seq().push(k@),
    {
        match self.find(&k) {
            Some(i) => {
                proof {
                    self.lemma_index(i as int);
                }
                let (k0, mut v) = self.entries.remove(i);
                v.push(x);
                let ghost nv = v;
                self.entries.insert(i, (k0, v));
                let ghost oks = old(self).key_seq();
                assert(self.key_seq() =~= oks);
                assert(self.val_seq() =~= old(self).val_seq().update(i as int, nv));
                assert forall|q: Seq<char>| #[trigger] self.key_seq().contains(q) implies
                    self.val_seq()[self.key_seq().index_of(q)] == old(self)@.insert(k@, nv)[q] by {
                    let j = self.key_seq().index_of(q);
                    self.lemma_index(j);
                    if q != k@ {
                        old(self).lemma_index(j);
                    } else {
                        assert(j == i);
                    }
                }
                assert(self@ =~= old(self)@.insert(k@, nv));
            },
            None => {
                let mut v: Vec<T> = Vec::new();
                v.push(x);
                self.insert(k, v);
            },
        }
    }
}

} // verus!
