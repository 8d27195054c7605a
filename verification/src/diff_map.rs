//! A map that tracks one `(old, new)` transition per touched key between
//! snapshots.
//!
//! `insert` and `remove` collapse repeated edits: only the first old value
//! and the latest new value of a key are retained.  `gen_diff` drains the
//! transition buffer into a batch of signed updates.

use vstd::prelude::*;

use crate::assoc::{
    assoc_find, lemma_assoc_get_at, lemma_assoc_get_none, lemma_assoc_get_push,
    lemma_assoc_get_remove_unique, lemma_assoc_get_update, spec_assoc_contains, spec_assoc_get,
    spec_keys_unique, AssocKey, AssocValue,
};
use crate::repr::{Diff, Timestamp};

verus! {

/// View of an optional value.
pub open spec fn spec_opt_view<V: View>(o: Option<V>) -> Option<V::V> {
    match o {
        Some(v) => Some(v@),
        None => None,
    }
}

fn opt_dup<V: AssocValue>(o: &Option<V>) -> (r: Option<V>)
    ensures
        spec_opt_view(r) == spec_opt_view(*o),
{
    match o {
        Some(v) => Some(v.dup()),
        None => None,
    }
}

/// Rebinding `k` to `v`: the first entry with key `k` is replaced in place,
/// or a new entry is appended.
pub open spec fn spec_assoc_set<A, B>(s: Seq<(A, B)>, k: A, v: B) -> Seq<(A, B)>
    decreases s.len(),
{
    if s.len() == 0 {
        seq![(k, v)]
    } else if s[0].0 == k {
        seq![(k, v)].add(s.drop_first())
    } else {
        seq![s[0]].add(spec_assoc_set(s.drop_first(), k, v))
    }
}

/// Unbinding `k`: the first entry with key `k` is removed.
pub open spec fn spec_assoc_del<A, B>(s: Seq<(A, B)>, k: A) -> Seq<(A, B)>
    decreases s.len(),
{
    if s.len() == 0 {
        s
    } else if s[0].0 == k {
        s.drop_first()
    } else {
        seq![s[0]].add(spec_assoc_del(s.drop_first(), k))
    }
}

/// When the first match is at `i`, a set is an in-place update.
pub proof fn lemma_assoc_set_at<A, B>(s: Seq<(A, B)>, k: A, v: B, i: int)
    requires
        0 <= i < s.len(),
        s[i].0 == k,
        forall|j: int| 0 <= j < i ==> s[j].0 != k,
    ensures
        spec_assoc_set(s, k, v) =~= s.update(i, (k, v)),
    decreases i,
{
    if i == 0 {
    } else {
        lemma_assoc_set_at(s.drop_first(), k, v, i - 1);
        assert(s.update(i, (k, v)).drop_first() =~= s.drop_first().update(i - 1, (k, v)));
    }
}

/// When no entry matches, a set is an append.
pub proof fn lemma_assoc_set_push<A, B>(s: Seq<(A, B)>, k: A, v: B)
    requires
        forall|j: int| 0 <= j < s.len() ==> s[j].0 != k,
    ensures
        spec_assoc_set(s, k, v) =~= s.push((k, v)),
    decreases s.len(),
{
    if s.len() > 0 {
        lemma_assoc_set_push(s.drop_first(), k, v);
        assert(s.push((k, v)).drop_first() =~= s.drop_first().push((k, v)));
    }
}

/// When the first match is at `i`, a delete is a removal at `i`.
pub proof fn lemma_assoc_del_at<A, B>(s: Seq<(A, B)>, k: A, i: int)
    requires
        0 <= i < s.len(),
        s[i].0 == k,
        forall|j: int| 0 <= j < i ==> s[j].0 != k,
    ensures
        spec_assoc_del(s, k) =~= s.remove(i),
    decreases i,
{
    if i == 0 {
        assert(s.remove(0) =~= s.drop_first());
    } else {
        lemma_assoc_del_at(s.drop_first(), k, i - 1);
        assert(s.remove(i).drop_first() =~= s.drop_first().remove(i - 1));
    }
}

/// When no entry matches, a delete changes nothing.
pub proof fn lemma_assoc_del_none<A, B>(s: Seq<(A, B)>, k: A)
    requires
        forall|j: int| 0 <= j < s.len() ==> s[j].0 != k,
    ensures
        spec_assoc_del(s, k) =~= s,
    decreases s.len(),
{
    if s.len() > 0 {
        lemma_assoc_del_none(s.drop_first(), k);
        assert(seq![s[0]].add(s.drop_first()) =~= s);
    }
}

/// A map which tracks the delta between calls of [`DiffMap::gen_diff`].
///
/// The transition recorded for a key is `(None, Some(v))` for an addition,
/// `(Some(old), None)` for a removal and `(Some(old), Some(new))` for an
/// update.
#[derive(Debug)]
pub struct DiffMap<K: AssocKey + AssocValue, V: AssocValue> {
    pub inner: Vec<(K, V)>,
    pub delta: Vec<(K, (Option<V>, Option<V>))>,
}

/// The delta buffer after an insert is recorded on it.
pub open spec fn spec_delta_after_insert<A, BV>(
    d: Seq<(A, (Option<BV>, Option<BV>))>,
    k: A,
    old_v: Option<BV>,
    v: BV,
) -> Seq<(A, (Option<BV>, Option<BV>))> {
    match spec_assoc_get(d, k) {
        Some(tr) => spec_assoc_set(d, k, (tr.0, Some(v))),
        None => match old_v {
            Some(o) => d.push((k, (Some(o), Some(v)))),
            None => d.push((k, (None, Some(v)))),
        },
    }
}

/// The delta buffer after a remove is recorded on it.
pub open spec fn spec_delta_after_remove<A, BV>(
    d: Seq<(A, (Option<BV>, Option<BV>))>,
    k: A,
    old_v: Option<BV>,
) -> Seq<(A, (Option<BV>, Option<BV>))> {
    match spec_assoc_get(d, k) {
        Some(tr) => spec_assoc_set(d, k, (tr.0, None)),
        None => match old_v {
            Some(o) => d.push((k, (Some(o), None))),
            None => d,
        },
    }
}

/// The signed updates one transition contributes: a retraction of the old
/// value, then an insertion of the new one.
pub open spec fn spec_gen_one<A, BV>(e: (A, (Option<BV>, Option<BV>)), tick: i64) -> Seq<
    ((A, BV), i64, i64),
> {
    let olds: Seq<((A, BV), i64, i64)> = match e.1.0 {
        Some(o) => seq![((e.0, o), tick, -1i64)],
        None => seq![],
    };
    let news: Seq<((A, BV), i64, i64)> = match e.1.1 {
        Some(n) => seq![((e.0, n), tick, 1i64)],
        None => seq![],
    };
    olds.add(news)
}

/// The batch of signed updates a delta buffer flattens to.
pub open spec fn spec_gen_diff<A, BV>(d: Seq<(A, (Option<BV>, Option<BV>))>, tick: i64) -> Seq<
    ((A, BV), i64, i64),
>
    decreases d.len(),
{
    if d.len() == 0 {
        Seq::empty()
    } else {
        spec_gen_one(d[0], tick).add(spec_gen_diff(d.drop_first(), tick))
    }
}

impl<K: AssocKey + AssocValue, V: AssocValue> DiffMap<K, V> {
    /// The current bindings, in insertion order.
    pub open spec fn inner_view(self) -> Seq<(K::V, V::V)> {
        self.inner@.map_values(|p: (K, V)| (p.0@, p.1@))
    }

    /// The recorded transitions, in first-touch order.
    pub open spec fn delta_view(self) -> Seq<(K::V, (Option<V::V>, Option<V::V>))> {
        self.delta@.map_values(
            |p: (K, (Option<V>, Option<V>))| (p.0@, (spec_opt_view(p.1.0), spec_opt_view(p.1.1))),
        )
    }

    /// Keys are bound at most once, in the map and in the delta buffer.
    pub open spec fn wf(self) -> bool {
        spec_keys_unique(self.inner_view()) && spec_keys_unique(self.delta_view())
    }

    /// An empty map with an empty delta buffer.
    pub fn new() -> (r: DiffMap<K, V>)
        ensures
            r.wf(),
            r.inner_view() == Seq::<(K::V, V::V)>::empty(),
            r.delta_view() == Seq::<(K::V, (Option<V::V>, Option<V::V>))>::empty(),
    {
        let r = DiffMap { inner: Vec::new(), delta: Vec::new() };
        proof {
            assert(r.inner_view() =~= Seq::<(K::V, V::V)>::empty());
            assert(r.delta_view() =~= Seq::<(K::V, (Option<V::V>, Option<V::V>))>::empty());
        }
        r
    }

    /// Look up the value bound to `key`.
    pub fn get(&self, key: &K) -> (r: Option<&V>)
        ensures
            match r {
                Some(v) => spec_assoc_get(self.inner_view(), key@) == Some(v@),
                None => spec_assoc_get(self.inner_view(), key@) is None,
            },
    {
        match assoc_find(&self.inner, key) {
            Some(i) => {
                proof {
                    lemma_assoc_get_at(self.inner_view(), key@, i as int);
                }
                Some(&self.inner[i].1)
            },
            None => {
                proof {
                    lemma_assoc_get_none(self.inner_view(), key@);
                }
                None
            },
        }
    }

    /// Whether `key` is bound.
    pub fn contains_key(&self, key: &K) -> (r: bool)
        ensures
            r == spec_assoc_contains(self.inner_view(), key@),
    {
        self.get(key).is_some()
    }

    /// A mutable handle on the value bound to `key`.  The mutation is not
    /// recorded in the delta buffer.  What the caller writes through the
    /// handle lands in the map; the handle's prophecy is not tracked here, so
    /// the contract only pins the looked-up value and the untouched case.
    pub fn get_mut(&mut self, key: &K) -> (r: Option<&mut V>)
        requires
            old(self).wf(),
        ensures
            r is Some <==> spec_assoc_contains(old(self).inner_view(), key@),
            r matches Some(p) ==> spec_assoc_get(old(self).inner_view(), key@) == Some((*p)@),
            r is None ==> *final(self) == *old(self),
    {
        match assoc_find(&self.inner, key) {
            Some(i) => {
                proof {
                    lemma_assoc_get_at(self.inner_view(), key@, i as int);
                }
                let pair = &mut self.inner[i];
                Some(&mut pair.1)
            },
            None => {
                proof {
                    lemma_assoc_get_none(self.inner_view(), key@);
                }
                None
            },
        }
    }

    /// Bind `key` to `value`, recording the transition; the previous value is
    /// returned.
    pub fn insert(&mut self, key: K, value: V) -> (r: Option<V>)
        requires
            old(self).wf(),
        ensures
            final(self).wf(),
            final(self).inner_view() =~= spec_assoc_set(old(self).inner_view(), key@, value@),
            final(self).delta_view() =~= spec_delta_after_insert(
                old(self).delta_view(),
                key@,
                spec_assoc_get(old(self).inner_view(), key@),
                value@,
            ),
            match spec_assoc_get(old(self).inner_view(), key@) {
                Some(v) => r matches Some(x) && x@ == v,
                None => r is None,
            },
    {
        let ghost inner0 = self.inner_view();
        let ghost delta0 = self.delta_view();
        let idx = assoc_find(&self.inner, &key);
        let mut old_v: Option<V> = None;
        match idx {
            Some(i) => {
                proof {
                    lemma_assoc_get_at(inner0, key@, i as int);
                    lemma_assoc_set_at(inner0, key@, value@, i as int);
                }
                old_v = Some(self.inner[i].1.dup());
                let k2 = self.inner[i].0.dup();
                let v2 = value.dup();
                self.inner.set(i, (k2, v2));
                proof {
                    assert(self.inner_view() =~= inner0.update(i as int, (key@, value@)));
                    assert forall|a: int, b: int|
                        0 <= a < b < self.inner_view().len() implies self.inner_view()[a].0
                        != self.inner_view()[b].0 by {
                        assert(inner0[a].0 != inner0[b].0);
                    }
                }
            },
            None => {
                proof {
                    lemma_assoc_get_none(inner0, key@);
                    lemma_assoc_set_push(inner0, key@, value@);
                }
                let k2 = key.dup();
                let v2 = value.dup();
                self.inner.push((k2, v2));
                proof {
                    assert(self.inner_view() =~= inner0.push((key@, value@)));
                }
            },
        }
        let jdx = assoc_find(&self.delta, &key);
        match jdx {
            Some(j) => {
                proof {
                    lemma_assoc_get_at(delta0, key@, j as int);
                    lemma_assoc_set_at(
                        delta0,
                        key@,
                        (delta0[j as int].1.0, Some(value@)),
                        j as int,
                    );
                }
                let k2 = self.delta[j].0.dup();
                let o2 = opt_dup(&self.delta[j].1.0);
                self.delta.set(j, (k2, (o2, Some(value))));
                proof {
                    assert(self.delta_view() =~= delta0.update(
                        j as int,
                        (key@, (delta0[j as int].1.0, Some(value@))),
                    ));
                    assert forall|a: int, b: int|
                        0 <= a < b < self.delta_view().len() implies self.delta_view()[a].0
                        != self.delta_view()[b].0 by {
                        assert(delta0[a].0 != delta0[b].0);
                    }
                }
            },
            None => {
                proof {
                    lemma_assoc_get_none(delta0, key@);
                }
                match &old_v {
                    Some(ov) => {
                        let ovd = ov.dup();
                        self.delta.push((key, (Some(ovd), Some(value))));
                    },
                    None => {
                        self.delta.push((key, (None, Some(value))));
                    },
                }
                proof {
                    assert(self.delta_view() =~= delta0.push(
                        (key@, (spec_assoc_get(inner0, key@), Some(value@))),
                    ));
                }
            },
        }
        old_v
    }

    /// Unbind `key`, recording the transition; the previous value is
    /// returned.
    pub fn remove(&mut self, key: &K) -> (r: Option<V>)
        requires
            old(self).wf(),
        ensures
            final(self).wf(),
            final(self).inner_view() =~= spec_assoc_del(old(self).inner_view(), key@),
            final(self).delta_view() =~= spec_delta_after_remove(
                old(self).delta_view(),
                key@,
                spec_assoc_get(old(self).inner_view(), key@),
            ),
            match spec_assoc_get(old(self).inner_view(), key@) {
                Some(v) => r matches Some(x) && x@ == v,
                None => r is None,
            },
    {
        let ghost inner0 = self.inner_view();
        let ghost delta0 = self.delta_view();
        let idx = assoc_find(&self.inner, key);
        let mut old_v: Option<V> = None;
        match idx {
            Some(i) => {
                proof {
                    lemma_assoc_get_at(inner0, key@, i as int);
                    lemma_assoc_del_at(inner0, key@, i as int);
                }
                let pair = self.inner.remove(i);
                old_v = Some(pair.1);
                proof {
                    assert(self.inner_view() =~= inner0.remove(i as int));
                    assert forall|a: int, b: int|
                        0 <= a < b < self.inner_view().len() implies self.inner_view()[a].0
                        != self.inner_view()[b].0 by {
                        let a0: int = if a < i { a } else { a + 1 };
                        let b0: int = if b < i { b } else { b + 1 };
                        assert(inner0[a0].0 != inner0[b0].0);
                    }
                }
            },
            None => {
                proof {
                    lemma_assoc_get_none(inner0, key@);
                    lemma_assoc_del_none(inner0, key@);
                }
            },
        }
        let jdx = assoc_find(&self.delta, key);
        match jdx {
            Some(j) => {
                proof {
                    lemma_assoc_get_at(delta0, key@, j as int);
                    lemma_assoc_set_at(delta0, key@, (delta0[j as int].1.0, None), j as int);
                }
                let k2 = self.delta[j].0.dup();
                let o2 = opt_dup(&self.delta[j].1.0);
                self.delta.set(j, (k2, (o2, None)));
                proof {
                    assert(self.delta_view() =~= delta0.update(
                        j as int,
                        (key@, (delta0[j as int].1.0, None)),
                    ));
                    assert forall|a: int, b: int|
                        0 <= a < b < self.delta_view().len() implies self.delta_view()[a].0
                        != self.delta_view()[b].0 by {
                        assert(delta0[a].0 != delta0[b].0);
                    }
                }
            },
            None => {
                proof {
                    lemma_assoc_get_none(delta0, key@);
                }
                match &old_v {
                    Some(ov) => {
                        let ovd = ov.dup();
                        let k2 = key.dup();
                        self.delta.push((k2, (Some(ovd), None)));
                        proof {
                            assert(self.delta_view() =~= delta0.push(
                                (key@, (spec_assoc_get(inner0, key@), None)),
                            ));
                        }
                    },
                    None => {
                        proof {
                            assert(self.delta_view() =~= delta0);
                        }
                    },
                }
            },
        }
        old_v
    }

    /// Unbind `key` without recording a transition; expired keys leave the
    /// state this way, unobserved by downstream consumers.
    pub fn remove_silent(&mut self, key: &K) -> (r: Option<V>)
        requires
            old(self).wf(),
        ensures
            final(self).wf(),
            final(self).inner_view() =~= spec_assoc_del(old(self).inner_view(), key@),
            final(self).delta_view() == old(self).delta_view(),
            match spec_assoc_get(old(self).inner_view(), key@) {
                Some(v) => r matches Some(x) && x@ == v,
                None => r is None,
            },
    {
        let ghost inner0 = self.inner_view();
        let idx = assoc_find(&self.inner, key);
        match idx {
            Some(i) => {
                proof {
                    lemma_assoc_get_at(inner0, key@, i as int);
                    lemma_assoc_del_at(inner0, key@, i as int);
                }
                let pair = self.inner.remove(i);
                proof {
                    assert(self.inner_view() =~= inner0.remove(i as int));
                    assert forall|a: int, b: int|
                        0 <= a < b < self.inner_view().len() implies self.inner_view()[a].0
                        != self.inner_view()[b].0 by {
                        let a0: int = if a < i { a } else { a + 1 };
                        let b0: int = if b < i { b } else { b + 1 };
                        assert(inner0[a0].0 != inner0[b0].0);
                    }
                }
                Some(pair.1)
            },
            None => {
                proof {
                    lemma_assoc_get_none(inner0, key@);
                    lemma_assoc_del_none(inner0, key@);
                }
                None
            },
        }
    }

    /// Drain the transitions recorded since the last call into a batch of
    /// signed updates at time `tick`: for each touched key a retraction of
    /// its old value, then an insertion of its new one.
    pub fn gen_diff(&mut self, tick: Timestamp) -> (r: Vec<((K, V), Timestamp, Diff)>)
        requires
            old(self).wf(),
        ensures
            final(self).wf(),
            final(self).inner_view() == old(self).inner_view(),
            final(self).delta_view() =~= Seq::<(K::V, (Option<V::V>, Option<V::V>))>::empty(),
            r@.map_values(|e: ((K, V), Timestamp, Diff)| ((e.0.0@, e.0.1@), e.1, e.2))
                =~= spec_gen_diff(old(self).delta_view(), tick),
    {
        let ghost delta0 = self.delta_view();
        let mut out: Vec<((K, V), Timestamp, Diff)> = Vec::new();
        let n = self.delta.len();
        let mut j: usize = 0;
        proof {
            assert(delta0.skip(0) =~= delta0);
        }
        #[verifier::loop_isolation(false)]
        while j < n
            invariant
                n == self.delta.len(),
                j <= n,
                self.delta_view() == delta0,
                self.inner_view() == old(self).inner_view(),
                spec_keys_unique(self.inner_view()),
                out@.map_values(|e: ((K, V), Timestamp, Diff)| ((e.0.0@, e.0.1@), e.1, e.2)).add(
                    spec_gen_diff(delta0.skip(j as int), tick),
                ) =~= spec_gen_diff(delta0, tick),
            decreases n - j,
        {
            let ghost out0 = out@.map_values(
                |e: ((K, V), Timestamp, Diff)| ((e.0.0@, e.0.1@), e.1, e.2),
            );
            proof {
                assert(delta0.skip(j as int)[0] == delta0[j as int]);
                assert(delta0.skip(j as int).drop_first() =~= delta0.skip(j + 1 as int));
            }
            let entry = &self.delta[j];
            match &entry.1.0 {
                Some(o) => {
                    let k2 = entry.0.dup();
                    let o2 = o.dup();
                    out.push(((k2, o2), tick, -1));
                },
                None => {},
            }
            let entry = &self.delta[j];
            match &entry.1.1 {
                Some(nv) => {
                    let k2 = entry.0.dup();
                    let n2 = nv.dup();
                    out.push(((k2, n2), tick, 1));
                },
                None => {},
            }
            proof {
                assert(out@.map_values(
                    |e: ((K, V), Timestamp, Diff)| ((e.0.0@, e.0.1@), e.1, e.2),
                ) =~= out0.add(spec_gen_one(delta0[j as int], tick)));
            }
            j += 1;
        }
        proof {
            assert(delta0.skip(n as int) =~= Seq::<
                (K::V, (Option<V::V>, Option<V::V>)),
            >::empty());
        }
        self.delta = Vec::new();
        proof {
            assert(self.delta_view() =~= Seq::<(K::V, (Option<V::V>, Option<V::V>))>::empty());
        }
        out
    }
}

} // verus!
