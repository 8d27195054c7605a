//! Association sequences: the ghost model shared by the map-like containers
//! of this crate, together with the lemmas that connect a linear search to
//! it.
//!
//! A container stores `Vec<(K, B)>` with pairwise-distinct keys; its ghost
//! view is the sequence of pairs, looked up by [`spec_assoc_get`].

use vstd::prelude::*;

verus! {

/// A key that can be compared for view equality.
pub trait AssocKey: View + Sized {
    /// View equality of two keys.
    fn key_eq(&self, other: &Self) -> (r: bool)
        ensures
            r == (self@ == other@),
    ;
}

/// A value that can be duplicated with the same view.
pub trait AssocValue: View + Sized {
    /// A copy of this value with the same view.
    fn dup(&self) -> (r: Self)
        ensures
            r@ == self@,
    ;
}

impl AssocKey for i32 {
    fn key_eq(&self, other: &Self) -> (r: bool) {
        *self == *other
    }
}

impl AssocValue for i32 {
    fn dup(&self) -> (r: Self) {
        *self
    }
}

impl AssocKey for u64 {
    fn key_eq(&self, other: &Self) -> (r: bool) {
        *self == *other
    }
}

impl AssocValue for u64 {
    fn dup(&self) -> (r: Self) {
        *self
    }
}

/// Whether all keys of the association sequence are distinct.
pub open spec fn spec_keys_unique<A, B>(s: Seq<(A, B)>) -> bool {
    forall|i: int, j: int| 0 <= i < j < s.len() ==> s[i].0 != s[j].0
}

/// The value associated with `k`, scanning from the front.
pub open spec fn spec_assoc_get<A, B>(s: Seq<(A, B)>, k: A) -> Option<B>
    decreases s.len(),
{
    if s.len() == 0 {
        None
    } else if s[0].0 == k {
        Some(s[0].1)
    } else {
        spec_assoc_get(s.drop_first(), k)
    }
}

/// Whether the association sequence binds `k`.
pub open spec fn spec_assoc_contains<A, B>(s: Seq<(A, B)>, k: A) -> bool {
    spec_assoc_get(s, k) is Some
}

/// A lookup lands on the first index whose key matches.
pub proof fn lemma_assoc_get_at<A, B>(s: Seq<(A, B)>, k: A, i: int)
    requires
        0 <= i < s.len(),
        s[i].0 == k,
        forall|j: int| 0 <= j < i ==> s[j].0 != k,
    ensures
        spec_assoc_get(s, k) == Some(s[i].1),
    decreases i,
{
    if i == 0 {
    } else {
        lemma_assoc_get_at(s.drop_first(), k, i - 1);
    }
}

/// A lookup misses when no key matches.
pub proof fn lemma_assoc_get_none<A, B>(s: Seq<(A, B)>, k: A)
    requires
        forall|j: int| 0 <= j < s.len() ==> s[j].0 != k,
    ensures
        spec_assoc_get(s, k) is None,
    decreases s.len(),
{
    if s.len() > 0 {
        lemma_assoc_get_none(s.drop_first(), k);
    }
}

/// Updating the entry at the first matching index rebinds the key and leaves
/// every other binding alone.
pub proof fn lemma_assoc_get_update<A, B>(s: Seq<(A, B)>, i: int, k: A, v: B, q: A)
    requires
        0 <= i < s.len(),
        s[i].0 == k,
        forall|j: int| 0 <= j < i ==> s[j].0 != k,
    ensures
        spec_assoc_get(s.update(i, (k, v)), q) == if q == k {
            Some(v)
        } else {
            spec_assoc_get(s, q)
        },
    decreases i,
{
    let s2 = s.update(i, (k, v));
    if i == 0 {
        assert(s2.drop_first() =~= s.drop_first());
    } else {
        assert(s2.drop_first() =~= s.drop_first().update(i - 1, (k, v)));
        lemma_assoc_get_update(s.drop_first(), i - 1, k, v, q);
    }
}

/// Appending a fresh binding leaves every other lookup alone.
pub proof fn lemma_assoc_get_push<A, B>(s: Seq<(A, B)>, k: A, v: B, q: A)
    requires
        forall|j: int| 0 <= j < s.len() ==> s[j].0 != k,
    ensures
        spec_assoc_get(s.push((k, v)), q) == if q == k {
            Some(v)
        } else {
            spec_assoc_get(s, q)
        },
    decreases s.len(),
{
    if s.len() == 0 {
        assert(s.push((k, v)).drop_first() =~= Seq::<(A, B)>::empty());
    } else {
        assert(s.push((k, v)).drop_first() =~= s.drop_first().push((k, v)));
        lemma_assoc_get_push(s.drop_first(), k, v, q);
    }
}

/// Removing the entry at the first matching index unbinds the key and leaves
/// every other binding alone.
pub proof fn lemma_assoc_get_remove<A, B>(s: Seq<(A, B)>, i: int, q: A)
    requires
        0 <= i < s.len(),
        forall|j: int| 0 <= j < i ==> s[j].0 != s[i].0,
    ensures
        spec_assoc_get(s.remove(i), q) == if q == s[i].0 {
            spec_assoc_get(s.drop_first().skip(i), q)
        } else {
            spec_assoc_get(s, q)
        },
    decreases i,
{
    let s2 = s.remove(i);
    if i == 0 {
        assert(s2 =~= s.drop_first());
        assert(s.drop_first().skip(0) =~= s.drop_first());
    } else {
        assert(s2.drop_first() =~= s.drop_first().remove(i - 1));
        lemma_assoc_get_remove(s.drop_first(), i - 1, q);
        assert(s.drop_first().drop_first().skip(i - 1) =~= s.drop_first().skip(i));
    }
}

/// Removing a uniquely-bound key makes lookups on it miss.
pub proof fn lemma_assoc_get_remove_unique<A, B>(s: Seq<(A, B)>, i: int, q: A)
    requires
        0 <= i < s.len(),
        spec_keys_unique(s),
    ensures
        spec_assoc_get(s.remove(i), q) == if q == s[i].0 {
            None::<B>
        } else {
            spec_assoc_get(s, q)
        },
{
    lemma_assoc_get_remove(s, i, q);
    if q == s[i].0 {
        let t = s.drop_first().skip(i);
        assert forall|j: int| 0 <= j < t.len() implies t[j].0 != q by {
            assert(t[j] == s[j + i + 1]);
        }
        lemma_assoc_get_none(t, q);
    }
}

/// Find the index of a key by linear search.
pub fn assoc_find<K: AssocKey, B>(v: &Vec<(K, B)>, key: &K) -> (r: Option<usize>)
    ensures
        match r {
            Some(i) => i < v@.len() && v@[i as int].0@ == key@ && (forall|j: int|
                0 <= j < i ==> v@[j].0@ != key@),
            None => forall|j: int| 0 <= j < v@.len() ==> v@[j].0@ != key@,
        },
{
    let n = v.len();
    let mut i: usize = 0;
    while i < n
        invariant
            n == v@.len(),
            i <= n,
            forall|j: int| 0 <= j < i ==> v@[j].0@ != key@,
        decreases n - i,
    {
        if v[i].0.key_eq(key) {
            return Some(i);
        }
        i += 1;
    }
    None
}

impl AssocKey for u32 {
    fn key_eq(&self, other: &Self) -> (r: bool) {
        *self == *other
    }
}

impl AssocValue for String {
    fn dup(&self) -> (r: Self) {
        self.clone()
    }
}

impl AssocKey for i64 {
    fn key_eq(&self, other: &Self) -> (r: bool) {
        *self == *other
    }
}

impl AssocValue for i64 {
    fn dup(&self) -> (r: Self) {
        *self
    }
}

/// Whether the sequence is strictly sorted by its time key.
pub open spec fn spec_sorted_strict<B>(s: Seq<(i64, B)>) -> bool {
    forall|i: int, j: int| 0 <= i < j < s.len() ==> s[i].0 < s[j].0
}

/// Strictly sorted time keys are pairwise distinct.
pub proof fn lemma_sorted_unique<B>(s: Seq<(i64, B)>)
    requires
        spec_sorted_strict(s),
    ensures
        spec_keys_unique(s),
{
}

/// Rebinding time `t` to bucket `b` in a time-sorted sequence: the existing
/// bucket is replaced, or a new one is inserted at its sorted position.
pub open spec fn spec_spine_put<B>(s: Seq<(i64, B)>, t: i64, b: B) -> Seq<(i64, B)>
    decreases s.len(),
{
    if s.len() == 0 {
        seq![(t, b)]
    } else if s[0].0 == t {
        seq![(t, b)].add(s.drop_first())
    } else if t < s[0].0 {
        seq![(t, b)].add(s)
    } else {
        seq![s[0]].add(spec_spine_put(s.drop_first(), t, b))
    }
}

/// When time `t` is present at index `i`, a put is an in-place update.
pub proof fn lemma_spine_put_at<B>(s: Seq<(i64, B)>, t: i64, b: B, i: int)
    requires
        spec_sorted_strict(s),
        0 <= i < s.len(),
        s[i].0 == t,
    ensures
        spec_spine_put(s, t, b) =~= s.update(i, (t, b)),
    decreases i,
{
    if i == 0 {
    } else {
        assert(s[0].0 < t);
        lemma_spine_put_at(s.drop_first(), t, b, i - 1);
        assert(s.update(i, (t, b)).drop_first() =~= s.drop_first().update(i - 1, (t, b)));
    }
}

/// When time `t` is absent, a put inserts at the sorted position `i`.
pub proof fn lemma_spine_put_insert<B>(s: Seq<(i64, B)>, t: i64, b: B, i: int)
    requires
        spec_sorted_strict(s),
        0 <= i <= s.len(),
        forall|j: int| 0 <= j < i ==> s[j].0 < t,
        forall|j: int| i <= j < s.len() ==> s[j].0 > t,
    ensures
        spec_spine_put(s, t, b) =~= s.insert(i, (t, b)),
    decreases i,
{
    if s.len() == 0 {
        assert(s.insert(0, (t, b)) =~= seq![(t, b)]);
    } else if i == 0 {
        assert(t < s[0].0);
        assert(s.insert(0, (t, b)) =~= seq![(t, b)].add(s));
    } else {
        assert(s[0].0 < t);
        lemma_spine_put_insert(s.drop_first(), t, b, i - 1);
        assert(s.insert(i, (t, b)).drop_first() =~= s.drop_first().insert(i - 1, (t, b)));
    }
}

/// The index of the first entry at or after `time`; entries before it are
/// strictly older.
pub fn spine_pos<B>(v: &Vec<(i64, B)>, time: i64) -> (r: usize)
    ensures
        r <= v@.len(),
        forall|j: int| 0 <= j < r ==> v@[j].0 < time,
        r < v@.len() ==> v@[r as int].0 >= time,
{
    let n = v.len();
    let mut i: usize = 0;
    while i < n
        invariant
            n == v@.len(),
            i <= n,
            forall|j: int| 0 <= j < i ==> v@[j].0 < time,
        decreases n - i,
    {
        if v[i].0 >= time {
            return i;
        }
        i += 1;
    }
    n
}


} // verus!
