//! A map that keeps its entries in the order in which their keys first
//! came, held as a list of pairs.

use vstd::prelude::*;

verus! {

/// The place of the first entry of `s` with key `k` at or after `from`, or
/// the length of `s` where there is none.
pub open spec fn position_from<K, V>(s: Seq<(K, V)>, k: K, from: int) -> int
    decreases s.len() - from,
{
    if from >= s.len() {
        s.len() as int
    } else if s[from].0 == k {
        from
    } else {
        position_from(s, k, from + 1)
    }
}

/// The value of the first entry of `s` with key `k`.
pub open spec fn assoc_get<K, V>(s: Seq<(K, V)>, k: K) -> Option<V> {
    let i = position_from(s, k, 0);
    if i < s.len() {
        Some(s[i].1)
    } else {
        None
    }
}

/// `s` with `v` under `k`: in the place of the first entry with that key,
/// or at the end where there is none.
pub open spec fn assoc_put<K, V>(s: Seq<(K, V)>, k: K, v: V) -> Seq<(K, V)> {
    let i = position_from(s, k, 0);
    if i < s.len() {
        s.update(i, (k, v))
    } else {
        s.push((k, v))
    }
}

/// Whether no key stands in `s` twice.
pub open spec fn distinct_keys<K, V>(s: Seq<(K, V)>) -> bool {
    forall|i: int, j: int| 0 <= i < j < s.len() ==> (#[trigger] s[i]).0 != (#[trigger] s[j]).0
}

pub proof fn lemma_position_from<K, V>(s: Seq<(K, V)>, k: K, from: int)
    requires
        0 <= from <= s.len(),
    ensures
        from <= position_from(s, k, from) <= s.len(),
        position_from(s, k, from) < s.len() ==> s[position_from(s, k, from)].0 == k,
        forall|j: int| from <= j < position_from(s, k, from) ==> (#[trigger] s[j]).0 != k,
    decreases s.len() - from,
{
    if from < s.len() && s[from].0 != k {
        lemma_position_from(s, k, from + 1);
    }
}

/// The first entry with key `k` at or after `from` stands at `i` when none
/// stands between the two and `i` holds the key or is the end.
pub proof fn lemma_position_is<K, V>(s: Seq<(K, V)>, k: K, from: int, i: int)
    requires
        0 <= from <= i <= s.len(),
        forall|j: int| from <= j < i ==> (#[trigger] s[j]).0 != k,
        i < s.len() ==> s[i].0 == k,
    ensures
        position_from(s, k, from) == i,
    decreases i - from,
{
    if from < i {
        lemma_position_is(s, k, from + 1, i);
    }
}

/// After `k` was put, `k` has the value put and every other key has what
/// it had.
pub proof fn lemma_get_after_put<K, V>(s: Seq<(K, V)>, k: K, v: V, other: K)
    ensures
        assoc_get(assoc_put(s, k, v), other) == if other == k {
            Some(v)
        } else {
            assoc_get(s, other)
        },
{
    let i = position_from(s, k, 0);
    let t = assoc_put(s, k, v);
    lemma_position_from(s, k, 0);
    lemma_position_from(s, other, 0);
    let o = position_from(s, other, 0);
    if other == k {
        assert forall|j: int| 0 <= j < i implies (#[trigger] t[j]).0 != k by {
            assert(t[j] == s[j]);
        }
        lemma_position_is(t, k, 0, i);
    } else if o < s.len() {
        assert forall|j: int| 0 <= j < o implies (#[trigger] t[j]).0 != other by {
            if j != i {
                assert(t[j] == s[j]);
            }
        }
        assert(t[o] == s[o]);
        lemma_position_is(t, other, 0, o);
    } else {
        assert forall|j: int| 0 <= j < t.len() implies (#[trigger] t[j]).0 != other by {
            if j != i {
                assert(t[j] == s[j]);
            }
        }
        lemma_position_is(t, other, 0, t.len() as int);
    }
}

/// Putting a key into a list without repeated keys leaves it without
/// repeated keys.
pub proof fn lemma_put_keeps_distinct<K, V>(s: Seq<(K, V)>, k: K, v: V)
    requires
        distinct_keys(s),
    ensures
        distinct_keys(assoc_put(s, k, v)),
{
    let i = position_from(s, k, 0);
    let t = assoc_put(s, k, v);
    lemma_position_from(s, k, 0);
    assert forall|a: int, b: int| 0 <= a < b < t.len() implies (#[trigger] t[a]).0 != (
    #[trigger] t[b]).0 by {
        if i < s.len() {
            assert(s[a].0 != s[b].0);
            if a == i {
                assert(t[b] == s[b]);
            } else if b == i {
                assert(t[a] == s[a]);
            } else {
                assert(t[a] == s[a] && t[b] == s[b]);
            }
        } else {
            assert(t[a] == s[a]);
            if b < s.len() {
                assert(t[b] == s[b]);
            }
        }
    }
}

/// A key of a map: two keys can be told apart by what they stand for.
pub trait Key: View + Sized {
    /// Whether the two keys stand for the same.
    fn same_key(&self, other: &Self) -> (r: bool)
        ensures
            r == (self@ == other@),
    ;
}

impl Key for String {
    fn same_key(&self, other: &Self) -> (r: bool) {
        *self == *other
    }
}

/// A map from `K` to `V` that keeps the order in which keys first came.
/// A lookup finds the first entry with the key.
#[derive(Debug)]
pub struct OrderedMap<K, V> {
    pub entries: Vec<(K, V)>,
}

impl<K: Key, V: View> View for OrderedMap<K, V> {
    type V = Seq<(K::V, V::V)>;

    open spec fn view(&self) -> Seq<(K::V, V::V)> {
        Seq::new(self.entries@.len(), |i: int| (self.entries@[i].0@, self.entries@[i].1@))
    }
}

impl<K: Key, V: View> OrderedMap<K, V> {
    /// The empty map.
    pub fn new() -> (r: Self)
        ensures
            r@ == Seq::<(K::V, V::V)>::empty(),
    {
        let r = OrderedMap { entries: Vec::new() };
        assert(r@ =~= Seq::<(K::V, V::V)>::empty());
        r
    }

    /// The number of entries.
    pub fn len(&self) -> (r: usize)
        ensures
            r == self@.len(),
    {
        self.entries.len()
    }

    /// Whether the map has no entry.
    pub fn is_empty(&self) -> (r: bool)
        ensures
            r == (self@.len() == 0),
    {
        self.entries.len() == 0
    }

    /// The place of the first entry with the key.
    pub fn position(&self, key: &K) -> (r: Option<usize>)
        ensures
            match r {
                Some(i) => i == position_from(self@, key@, 0) && i < self@.len(),
                None => position_from(self@, key@, 0) == self@.len(),
            },
    {
        let mut i: usize = 0;
        while i < self.entries.len()
            invariant
                i <= self.entries.len(),
                position_from(self@, key@, 0) == position_from(self@, key@, i as int),
            decreases self.entries.len() - i,
        {
            if self.entries[i].0.same_key(key) {
                return Some(i);
            }
            i = i + 1;
        }
        None
    }

    /// The value under the key.
    pub fn get(&self, key: &K) -> (r: Option<&V>)
        ensures
            match r {
                Some(v) => assoc_get(self@, key@) == Some(v@),
                None => assoc_get(self@, key@) is None,
            },
    {
        match self.position(key) {
            Some(i) => Some(&self.entries[i].1),
            None => None,
        }
    }

    /// Whether the map has the key.
    pub fn contains_key(&self, key: &K) -> (r: bool)
        ensures
            r == assoc_get(self@, key@) is Some,
    {
        self.position(key).is_some()
    }

    /// Puts `value` under `key`. A key that the map has keeps its place
    /// and gets the new value; a new key goes to the end.
    pub fn insert(&mut self, key: K, value: V)
        ensures
            final(self)@ == assoc_put(old(self)@, key@, value@),
    {
        match self.position(&key) {
            Some(i) => {
                self.entries.set(i, (key, value));
            },
            None => {
                self.entries.push((key, value));
            },
        }
        assert(self@ =~= assoc_put(old(self)@, key@, value@));
    }
}

} // verus!
