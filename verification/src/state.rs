//! Operator-local scheduled state: future-dated row events and an
//! event-time-keyed map with expiry.

use vstd::prelude::*;

use crate::assoc::{
    assoc_find, lemma_assoc_get_at, lemma_assoc_get_none, lemma_sorted_unique, spec_assoc_contains,
    spec_assoc_get, spec_keys_unique, spec_sorted_strict, spec_spine_put, lemma_spine_put_at,
    lemma_spine_put_insert, spine_pos, AssocKey, AssocValue,
};
use crate::diff_map::{
    lemma_assoc_del_at, lemma_assoc_set_at, lemma_assoc_set_push, spec_assoc_del, spec_assoc_set,
};
use crate::diff_map::DiffMap;
use crate::expr::{EvalError, ScalarExpr};
use crate::repr::{value_to_internal_ts, Diff, Row, Timestamp};
use crate::value::Value;

verus! {

/// State that must be run again at a certain time.
pub trait ScheduledAction {
    /// What the scheduling question needs of the state; `schd_at` may only
    /// be asked when this holds.
    spec fn spec_schd_req(&self, now: Timestamp) -> bool;

    /// The next wake-up time, if any work is pending.
    spec fn spec_schd_at(&self, now: Timestamp) -> Option<Timestamp>;

    /// Schedule the next run at the given time.
    fn schd_at(&self, now: Timestamp) -> (r: Option<Timestamp>)
        requires
            self.spec_schd_req(now),
        ensures
            r == self.spec_schd_at(now),
    ;
}

/// A bucket's rows flattened into timed updates.
pub open spec fn spec_bucket_flat(b: (i64, Seq<(Seq<Value>, i64)>)) -> Seq<
    (Seq<Value>, i64, i64),
> {
    b.1.map_values(|rd: (Seq<Value>, i64)| (rd.0, b.0, rd.1))
}

/// A time-ordered spine flattened into timed updates, bucket by bucket.
pub open spec fn spec_flatten(bs: Seq<(i64, Seq<(Seq<Value>, i64)>)>) -> Seq<
    (Seq<Value>, i64, i64),
>
    decreases bs.len(),
{
    if bs.len() == 0 {
        Seq::empty()
    } else {
        spec_bucket_flat(bs[0]).add(spec_flatten(bs.drop_first()))
    }
}

/// How many leading buckets are at or before `t`.
pub open spec fn spec_cut<B>(sp: Seq<(i64, B)>, t: i64) -> int
    decreases sp.len(),
{
    if sp.len() == 0 {
        0
    } else if sp[0].0 <= t {
        1 + spec_cut(sp.drop_first(), t)
    } else {
        0
    }
}

/// On a sorted spine the cut is exactly the boundary index.
pub proof fn lemma_cut_at<B>(sp: Seq<(i64, B)>, t: i64, k: int)
    requires
        0 <= k <= sp.len(),
        forall|j: int| 0 <= j < k ==> sp[j].0 <= t,
        k < sp.len() ==> sp[k].0 > t,
    ensures
        spec_cut(sp, t) == k,
    decreases k,
{
    if k == 0 {
    } else {
        lemma_cut_at::<B>(sp.drop_first(), t, k - 1);
    }
}

/// How many leading buckets are strictly before `t`.
pub open spec fn spec_cut_lt<B>(sp: Seq<(i64, B)>, t: i64) -> int
    decreases sp.len(),
{
    if sp.len() == 0 {
        0
    } else if sp[0].0 < t {
        1 + spec_cut_lt(sp.drop_first(), t)
    } else {
        0
    }
}

/// On a sorted spine the strict cut is exactly the boundary index.
pub proof fn lemma_cut_lt_at<B>(sp: Seq<(i64, B)>, t: i64, k: int)
    requires
        0 <= k <= sp.len(),
        forall|j: int| 0 <= j < k ==> sp[j].0 < t,
        k < sp.len() ==> sp[k].0 >= t,
    ensures
        spec_cut_lt(sp, t) == k,
    decreases k,
{
    if k == 0 {
    } else {
        lemma_cut_lt_at::<B>(sp.drop_first(), t, k - 1);
    }
}

/// One row-level contribution folded into a bucket: diffs coalesce by row,
/// and a row whose diff sums to zero leaves the bucket.
pub open spec fn spec_bucket_append(
    rows: Seq<(Seq<Value>, i64)>,
    row: Seq<Value>,
    diff: i64,
) -> Seq<(Seq<Value>, i64)> {
    match spec_assoc_get(rows, row) {
        Some(d) => {
            if d + diff == 0 {
                spec_assoc_del(rows, row)
            } else {
                spec_assoc_set(rows, row, (d + diff) as i64)
            }
        },
        None => rows.push((row, diff)),
    }
}

/// One delta row folded into the spine.
pub open spec fn spec_tfs_append_one(
    sp: Seq<(i64, Seq<(Seq<Value>, i64)>)>,
    row: Seq<Value>,
    time: i64,
    diff: i64,
) -> Seq<(i64, Seq<(Seq<Value>, i64)>)> {
    let rows = match spec_assoc_get(sp, time) {
        Some(rs) => rs,
        None => Seq::empty(),
    };
    spec_spine_put(sp, time, spec_bucket_append(rows, row, diff))
}

/// Whether one fold step stays within the diff counter's range.
pub open spec fn spec_tfs_append_one_fits(
    sp: Seq<(i64, Seq<(Seq<Value>, i64)>)>,
    row: Seq<Value>,
    time: i64,
    diff: i64,
) -> bool {
    match spec_assoc_get(sp, time) {
        Some(rs) => match spec_assoc_get(rs, row) {
            Some(d) => i64::MIN <= d + diff <= i64::MAX,
            None => true,
        },
        None => true,
    }
}

/// A batch of delta rows folded into the spine, in order.
pub open spec fn spec_tfs_append_seq(
    sp: Seq<(i64, Seq<(Seq<Value>, i64)>)>,
    rows: Seq<(Seq<Value>, i64, i64)>,
) -> Seq<(i64, Seq<(Seq<Value>, i64)>)>
    decreases rows.len(),
{
    if rows.len() == 0 {
        sp
    } else {
        spec_tfs_append_seq(
            spec_tfs_append_one(sp, rows[0].0, rows[0].1, rows[0].2),
            rows.drop_first(),
        )
    }
}

/// Whether every fold step of a batch stays in range.
pub open spec fn spec_tfs_append_seq_fits(
    sp: Seq<(i64, Seq<(Seq<Value>, i64)>)>,
    rows: Seq<(Seq<Value>, i64, i64)>,
) -> bool
    decreases rows.len(),
{
    rows.len() > 0 ==> {
        &&& spec_tfs_append_one_fits(sp, rows[0].0, rows[0].1, rows[0].2)
        &&& spec_tfs_append_seq_fits(
            spec_tfs_append_one(sp, rows[0].0, rows[0].1, rows[0].2),
            rows.drop_first(),
        )
    }
}

/// Pending future row events, ordered by time; rows with their signed
/// contributions are kept per time bucket until the bucket is released.
#[derive(Debug)]
pub struct TemporalFilterState {
    pub spine: Vec<(Timestamp, Vec<(Row, Diff)>)>,
}

impl TemporalFilterState {
    /// The spine as a time-ordered sequence of buckets of `(row, diff)`.
    pub open spec fn spine_view(self) -> Seq<(i64, Seq<(Seq<Value>, i64)>)> {
        self.spine@.map_values(
            |b: (Timestamp, Vec<(Row, Diff)>)| (b.0, b.1@.map_values(|rd: (Row, Diff)| (rd.0@, rd.1))),
        )
    }

    /// Buckets are strictly ordered by time and hold each row at most once.
    pub open spec fn wf(self) -> bool {
        &&& spec_sorted_strict(self.spine_view())
        &&& forall|i: int|
            0 <= i < self.spine_view().len() ==> spec_keys_unique(#[trigger] self.spine_view()[i].1)
    }

    /// An empty state.
    pub fn new() -> (r: TemporalFilterState)
        ensures
            r.wf(),
            r.spine_view() == Seq::<(i64, Seq<(Seq<Value>, i64)>)>::empty(),
    {
        let r = TemporalFilterState { spine: Vec::new() };
        proof {
            assert(r.spine_view() =~= Seq::<(i64, Seq<(Seq<Value>, i64)>)>::empty());
        }
        r
    }

    /// Fold one `(row, time, diff)` contribution into the spine.
    pub fn append_one(&mut self, row: Row, time: Timestamp, diff: Diff)
        requires
            old(self).wf(),
            spec_tfs_append_one_fits(old(self).spine_view(), row@, time, diff),
        ensures
            final(self).wf(),
            final(self).spine_view() =~= spec_tfs_append_one(
                old(self).spine_view(),
                row@,
                time,
                diff,
            ),
    {
        let ghost sp0 = self.spine_view();
        let pos = spine_pos(&self.spine, time);
        let n = self.spine.len();
        let mut bucket: Vec<(Row, Diff)>;
        let existed = pos < n && self.spine[pos].0 == time;
        proof {
            lemma_sorted_unique(sp0);
            if existed {
                lemma_assoc_get_at(sp0, time, pos as int);
            } else {
                assert forall|j: int| 0 <= j < sp0.len() implies sp0[j].0 != time by {
                    if j > pos {
                        assert(sp0[pos as int].0 < sp0[j].0);
                    }
                }
                lemma_assoc_get_none(sp0, time);
            }
        }
        if existed {
            let pair = self.spine.remove(pos);
            bucket = pair.1;
        } else {
            bucket = Vec::new();
            proof {
                assert(bucket@.map_values(|rd: (Row, Diff)| (rd.0@, rd.1)) =~= Seq::<
                    (Seq<Value>, i64),
                >::empty());
            }
        }
        let ghost b0 = bucket@.map_values(|rd: (Row, Diff)| (rd.0@, rd.1));
        match assoc_find(&bucket, &row) {
            Some(i) => {
                let d = bucket[i].1;
                proof {
                    lemma_assoc_get_at(b0, row@, i as int);
                }
                if d + diff == 0 {
                    proof {
                        lemma_assoc_del_at(b0, row@, i as int);
                    }
                    bucket.remove(i);
                    proof {
                        assert(bucket@.map_values(|rd: (Row, Diff)| (rd.0@, rd.1)) =~= b0.remove(
                            i as int,
                        ));
                    }
                } else {
                    proof {
                        lemma_assoc_set_at(b0, row@, (d + diff) as i64, i as int);
                    }
                    let k2 = bucket[i].0.dup();
                    bucket.set(i, (k2, d + diff));
                    proof {
                        assert(bucket@.map_values(|rd: (Row, Diff)| (rd.0@, rd.1)) =~= b0.update(
                            i as int,
                            (row@, (d + diff) as i64),
                        ));
                    }
                }
            },
            None => {
                proof {
                    lemma_assoc_get_none(b0, row@);
                }
                bucket.push((row, diff));
                proof {
                    assert(bucket@.map_values(|rd: (Row, Diff)| (rd.0@, rd.1)) =~= b0.push(
                        (row@, diff),
                    ));
                }
            },
        }
        let ghost b1 = bucket@.map_values(|rd: (Row, Diff)| (rd.0@, rd.1));
        proof {
            assert(b1 =~= spec_bucket_append(
                match spec_assoc_get(sp0, time) {
                    Some(rs) => rs,
                    None => Seq::empty(),
                },
                row@,
                diff,
            ));
            assert forall|a: int, b: int|
                0 <= a < b < b1.len() implies b1[a].0 != b1[b].0 by {}
        }
        self.spine.insert(pos, (time, bucket));
        proof {
            if existed {
                assert(self.spine_view() =~= sp0.update(pos as int, (time, b1)));
                lemma_spine_put_at(sp0, time, b1, pos as int);
            } else {
                assert forall|j: int| pos <= j < sp0.len() implies sp0[j].0 > time by {
                    if j > pos {
                        assert(sp0[pos as int].0 < sp0[j].0);
                    }
                }
                assert(self.spine_view() =~= sp0.insert(pos as int, (time, b1)));
                lemma_spine_put_insert(sp0, time, b1, pos as int);
            }
            assert forall|a: int, c: int|
                0 <= a < c < self.spine_view().len() implies self.spine_view()[a].0
                < self.spine_view()[c].0 by {
                if existed {
                } else {
                    let f = |j: int| if j < pos { j } else { j - 1 };
                }
            }
        }
    }

    /// Fold a batch of delta rows into the spine, coalescing by `(time,
    /// row)`; contributions that sum to zero drop out.
    pub fn append_delta_row(&mut self, rows: Vec<(Row, Timestamp, Diff)>)
        requires
            old(self).wf(),
            spec_tfs_append_seq_fits(
                old(self).spine_view(),
                rows@.map_values(|e: (Row, Timestamp, Diff)| (e.0@, e.1, e.2)),
            ),
        ensures
            final(self).wf(),
            final(self).spine_view() =~= spec_tfs_append_seq(
                old(self).spine_view(),
                rows@.map_values(|e: (Row, Timestamp, Diff)| (e.0@, e.1, e.2)),
            ),
    {
        let ghost all = rows@.map_values(|e: (Row, Timestamp, Diff)| (e.0@, e.1, e.2));
        proof {
            assert(all.skip(0) =~= all);
        }
        let n = rows.len();
        let mut i: usize = 0;
        #[verifier::loop_isolation(false)]
        while i < n
            invariant
                n == all.len(),
                i <= n,
                rows@.map_values(|e: (Row, Timestamp, Diff)| (e.0@, e.1, e.2)) == all,
                self.wf(),
                spec_tfs_append_seq_fits(self.spine_view(), all.skip(i as int)),
                spec_tfs_append_seq(self.spine_view(), all.skip(i as int))
                    == spec_tfs_append_seq(old(self).spine_view(), all),
            decreases n - i,
        {
            proof {
                assert(all.skip(i as int)[0] == all[i as int]);
                assert(all.skip(i as int).drop_first() =~= all.skip(i + 1 as int));
            }
            let r2 = rows[i].0.duplicate();
            let t = rows[i].1;
            let d = rows[i].2;
            self.append_one(r2, t, d);
            i += 1;
        }
    }

    /// Remove and return every contribution at or before `time`: buckets
    /// come out in ascending time order, rows in their bucket order.
    pub fn trunc_until_inclusive(&mut self, time: Timestamp) -> (r: Vec<(Row, Timestamp, Diff)>)
        requires
            old(self).wf(),
        ensures
            final(self).wf(),
            final(self).spine_view() =~= old(self).spine_view().skip(
                spec_cut(old(self).spine_view(), time),
            ),
            r@.map_values(|e: (Row, Timestamp, Diff)| (e.0@, e.1, e.2)) =~= spec_flatten(
                old(self).spine_view().take(spec_cut(old(self).spine_view(), time)),
            ),
    {
        let ghost sp0 = self.spine_view();
        let n0 = self.spine.len();
        let mut ret: Vec<(Row, Timestamp, Diff)> = Vec::new();
        let mut k: usize = 0;
        proof {
            assert(sp0.len() == n0);
            assert(sp0.take(0) =~= Seq::<(i64, Seq<(Seq<Value>, i64)>)>::empty());
            assert(sp0.skip(0) =~= sp0);
        }
        #[verifier::loop_isolation(false)]
        while self.spine.len() > 0 && self.spine[0].0 <= time
            invariant
                k <= sp0.len(),
                forall|j: int| 0 <= j < k ==> sp0[j].0 <= time,
                self.spine_view() =~= sp0.skip(k as int),
                self.wf(),
                ret@.map_values(|e: (Row, Timestamp, Diff)| (e.0@, e.1, e.2)) =~= spec_flatten(
                    sp0.take(k as int),
                ),
            decreases self.spine.len(),
        {
            let ghost spk = self.spine_view();
            let pair = self.spine.remove(0);
            let t = pair.0;
            let bucket = pair.1;
            proof {
                assert(spk[0] == sp0[k as int]);
                assert(self.spine_view() =~= spk.drop_first());
                assert(self.spine_view() =~= sp0.skip(k + 1 as int));
            }
            let ghost ret0 = ret@.map_values(|e: (Row, Timestamp, Diff)| (e.0@, e.1, e.2));
            let ghost bv = bucket@.map_values(|rd: (Row, Diff)| (rd.0@, rd.1));
            let m = bucket.len();
            let mut x: usize = 0;
            #[verifier::loop_isolation(false)]
            while x < m
                invariant
                    m == bv.len(),
                    x <= m,
                    bucket@.map_values(|rd: (Row, Diff)| (rd.0@, rd.1)) == bv,
                    ret@.map_values(|e: (Row, Timestamp, Diff)| (e.0@, e.1, e.2)) =~= ret0.add(
                        spec_bucket_flat((t, bv)).take(x as int),
                    ),
                decreases m - x,
            {
                let ghost retx = ret@.map_values(|e: (Row, Timestamp, Diff)| (e.0@, e.1, e.2));
                let row = bucket[x].0.duplicate();
                let d = bucket[x].1;
                proof {
                    assert(bv[x as int] == (bucket@[x as int].0@, bucket@[x as int].1));
                }
                ret.push((row, t, d));
                proof {
                    assert(ret@.map_values(|e: (Row, Timestamp, Diff)| (e.0@, e.1, e.2)) =~= retx.push(
                        (bv[x as int].0, t, bv[x as int].1),
                    ));
                    assert(spec_bucket_flat((t, bv)).take(x + 1 as int) =~= spec_bucket_flat(
                        (t, bv),
                    ).take(x as int).push((bv[x as int].0, t, bv[x as int].1)));
                }
                x += 1;
            }
            proof {
                assert(spec_bucket_flat((t, bv)).take(m as int) =~= spec_bucket_flat((t, bv)));
                lemma_flatten_snoc(sp0.take(k as int), (t, bv));
                assert(k < sp0.len());
                assert(sp0.take(k + 1 as int) =~= sp0.take(k as int).push((t, bv)));
            }
            k += 1;
        }
        proof {
            if k < sp0.len() {
                assert(sp0.skip(k as int)[0] == sp0[k as int]);
            }
            lemma_cut_at::<Seq<(Seq<Value>, i64)>>(sp0, time, k as int);
        }
        ret
    }
}

/// Flattening a spine extended by one bucket appends that bucket's rows.
pub proof fn lemma_flatten_snoc(bs: Seq<(i64, Seq<(Seq<Value>, i64)>)>, b: (i64, Seq<(Seq<Value>, i64)>))
    ensures
        spec_flatten(bs.push(b)) =~= spec_flatten(bs).add(spec_bucket_flat(b)),
    decreases bs.len(),
{
    if bs.len() == 0 {
        assert(bs.push(b).drop_first() =~= Seq::<(i64, Seq<(Seq<Value>, i64)>)>::empty());
        assert(bs.push(b)[0] == b);
        assert(spec_flatten(Seq::<(i64, Seq<(Seq<Value>, i64)>)>::empty())
            == Seq::<(Seq<Value>, i64, i64)>::empty());
        assert(spec_flatten(bs.push(b)) =~= spec_bucket_flat(b));
        assert(spec_flatten(bs) == Seq::<(Seq<Value>, i64, i64)>::empty());
        assert(spec_flatten(bs).add(spec_bucket_flat(b)) =~= spec_bucket_flat(b));
    } else {
        assert(bs.push(b).drop_first() =~= bs.drop_first().push(b));
        lemma_flatten_snoc(bs.drop_first(), b);
        assert(bs.push(b)[0] == bs[0]);
        assert(spec_flatten(bs.push(b)) == spec_bucket_flat(bs[0]).add(
            spec_flatten(bs.drop_first().push(b)),
        ));
        assert(spec_flatten(bs.drop_first().push(b)) == spec_flatten(bs.drop_first()).add(
            spec_bucket_flat(b),
        ));
        assert(spec_flatten(bs) == spec_bucket_flat(bs[0]).add(spec_flatten(bs.drop_first())));
    }
}

impl ScheduledAction for TemporalFilterState {
    open spec fn spec_schd_req(&self, now: Timestamp) -> bool {
        true
    }

    /// The earliest pending time, whatever `now` is.
    open spec fn spec_schd_at(&self, now: Timestamp) -> Option<Timestamp> {
        if self.spine_view().len() == 0 {
            None
        } else {
            Some(self.spine_view()[0].0)
        }
    }

    fn schd_at(&self, now: Timestamp) -> (r: Option<Timestamp>) {
        if self.spine.len() == 0 {
            None
        } else {
            Some(self.spine[0].0)
        }
    }
}

/// Whether a key bucket holds each key at most once.
pub open spec fn spec_bucket_keys_unique(b: Seq<Seq<Value>>) -> bool {
    forall|a: int, c: int| 0 <= a < c < b.len() ==> b[a] != b[c]
}

/// The event-time keys of the leading buckets, flattened in order.
pub open spec fn spec_t2k_keys(bs: Seq<(i64, Seq<Seq<Value>>)>) -> Seq<Seq<Value>>
    decreases bs.len(),
{
    if bs.len() == 0 {
        Seq::empty()
    } else {
        bs[0].1.add(spec_t2k_keys(bs.drop_first()))
    }
}

/// How many keys the buckets hold in all.
pub open spec fn spec_t2k_count(bs: Seq<(i64, Seq<Seq<Value>>)>) -> int {
    spec_t2k_keys(bs).len() as int
}

/// Flattened keys split at a bucket boundary.
pub proof fn lemma_t2k_keys_snoc(bs: Seq<(i64, Seq<Seq<Value>>)>, b: (i64, Seq<Seq<Value>>))
    ensures
        spec_t2k_keys(bs.push(b)) =~= spec_t2k_keys(bs).add(b.1),
    decreases bs.len(),
{
    if bs.len() == 0 {
        assert(bs.push(b).drop_first() =~= Seq::<(i64, Seq<Seq<Value>>)>::empty());
        assert(bs.push(b)[0] == b);
        assert(spec_t2k_keys(Seq::<(i64, Seq<Seq<Value>>)>::empty()) == Seq::<Seq<Value>>::empty());
        assert(spec_t2k_keys(bs) == Seq::<Seq<Value>>::empty());
        assert(spec_t2k_keys(bs.push(b)) =~= b.1);
        assert(spec_t2k_keys(bs).add(b.1) =~= b.1);
    } else {
        assert(bs.push(b).drop_first() =~= bs.drop_first().push(b));
        lemma_t2k_keys_snoc(bs.drop_first(), b);
        assert(bs.push(b)[0] == bs[0]);
    }
}

/// A map after a batch of silent removals, applied in order.
pub open spec fn spec_del_keys(
    m: Seq<(Seq<Value>, Seq<Value>)>,
    keys: Seq<Seq<Value>>,
) -> Seq<(Seq<Value>, Seq<Value>)>
    decreases keys.len(),
{
    if keys.len() == 0 {
        m
    } else {
        spec_del_keys(spec_assoc_del(m, keys[0]), keys.drop_first())
    }
}

/// Removing two batches in a row is removing their concatenation.
pub proof fn lemma_del_keys_concat(
    m: Seq<(Seq<Value>, Seq<Value>)>,
    a: Seq<Seq<Value>>,
    b: Seq<Seq<Value>>,
)
    ensures
        spec_del_keys(m, a.add(b)) == spec_del_keys(spec_del_keys(m, a), b),
    decreases a.len(),
{
    if a.len() == 0 {
        assert(a.add(b) =~= b);
    } else {
        assert(a.add(b)[0] == a[0]);
        assert(a.add(b).drop_first() =~= a.drop_first().add(b));
        lemma_del_keys_concat(spec_assoc_del(m, a[0]), a.drop_first(), b);
    }
}

/// An event-time-keyed row map with a time-to-key index and an optional
/// time-to-live.
///
/// A key's event time comes from the key row itself, through a scalar
/// expression; entries whose event time has fallen behind `current - TTL`
/// are rejected on write and silently evicted by
/// [`ExpiringKeyValueState::trunc_expired`].
#[derive(Debug)]
pub struct ExpiringKeyValueState {
    pub inner: DiffMap<Row, Row>,
    pub time2key: Vec<(Timestamp, Vec<Row>)>,
    /// Duration after which a key is considered expired and leaves the
    /// state.
    pub key_expiration_duration: Option<Timestamp>,
    /// Yields the event timestamp when applied to a key row.
    pub event_timestamp_from_row: ScalarExpr,
}

impl ExpiringKeyValueState {
    /// The time-to-key index as a time-ordered sequence of key buckets.
    pub open spec fn t2k_view(self) -> Seq<(i64, Seq<Seq<Value>>)> {
        self.time2key@.map_values(
            |b: (Timestamp, Vec<Row>)| (b.0, b.1@.map_values(|r: Row| r@)),
        )
    }

    /// The map is well formed, the index is strictly time-ordered and each
    /// bucket holds a key at most once.
    pub open spec fn wf(self) -> bool {
        &&& self.inner.wf()
        &&& spec_sorted_strict(self.t2k_view())
        &&& forall|i: int|
            0 <= i < self.t2k_view().len() ==> spec_bucket_keys_unique(
                (#[trigger] self.t2k_view()[i]).1,
            )
    }

    /// The event time of a key row, when its timestamp value is integral.
    pub open spec fn spec_event_ts(self, row: Seq<Value>) -> Option<i64> {
        crate::repr::spec_value_to_internal_ts(self.event_timestamp_from_row.spec_eval(row))
    }

    /// The instant before which data counts as late, as an unbounded
    /// integer.
    pub open spec fn spec_expire_time(self, current: i64) -> Option<int> {
        match self.key_expiration_duration {
            Some(d) => Some(current - d),
            None => None,
        }
    }

    /// Whether `current - TTL` stays within the timestamp range.
    pub open spec fn spec_ttl_ok(self, current: i64) -> bool {
        match self.key_expiration_duration {
            Some(d) => i64::MIN <= current - d <= i64::MAX,
            None => true,
        }
    }

    /// A fresh state with the given expiry and event-time expression.
    pub fn new(
        key_expiration_duration: Option<Timestamp>,
        event_timestamp_from_row: ScalarExpr,
    ) -> (r: ExpiringKeyValueState)
        ensures
            r.wf(),
            r.key_expiration_duration == key_expiration_duration,
            r.event_timestamp_from_row == event_timestamp_from_row,
            r.inner.inner_view() == Seq::<(Seq<Value>, Seq<Value>)>::empty(),
            r.inner.delta_view() == Seq::<
                (Seq<Value>, (Option<Seq<Value>>, Option<Seq<Value>>)),
            >::empty(),
            r.t2k_view() == Seq::<(i64, Seq<Seq<Value>>)>::empty(),
    {
        let r = ExpiringKeyValueState {
            inner: DiffMap::new(),
            time2key: Vec::new(),
            key_expiration_duration,
            event_timestamp_from_row,
        };
        proof {
            assert(r.t2k_view() =~= Seq::<(i64, Seq<Seq<Value>>)>::empty());
        }
        r
    }

    /// Read the event timestamp out of a key row.
    pub fn extract_event_ts(&self, row: &Row) -> (r: Result<Timestamp, EvalError>)
        requires
            self.event_timestamp_from_row.spec_applies_to(row@),
        ensures
            match self.spec_event_ts(row@) {
                Some(ts) => r == Ok::<Timestamp, EvalError>(ts),
                None => r matches Err(e) && e is TypeMismatch,
            },
    {
        let v = self.event_timestamp_from_row.eval(&row.inner);
        value_to_internal_ts(v)
    }

    /// The instant before which data counts as late, if an expiry is set.
    pub fn get_expire_time(&self, current: Timestamp) -> (r: Option<Timestamp>)
        requires
            self.spec_ttl_ok(current),
        ensures
            match self.spec_expire_time(current) {
                Some(e) => r matches Some(x) && x == e,
                None => r is None,
            },
    {
        match self.key_expiration_duration {
            Some(d) => Some(current - d),
            None => None,
        }
    }

    /// Look up the value bound to a key row.
    pub fn get(&self, k: &Row) -> (r: Option<&Row>)
        ensures
            match r {
                Some(v) => spec_assoc_get(self.inner.inner_view(), k@) == Some(v@),
                None => spec_assoc_get(self.inner.inner_view(), k@) is None,
            },
    {
        self.inner.get(k)
    }
}

/// Find a key row in a bucket.
fn bucket_find(v: &Vec<Row>, key: &Row) -> (r: Option<usize>)
    ensures
        match r {
            Some(i) => i < v@.len() && v@[i as int]@ == key@ && (forall|j: int|
                0 <= j < i ==> v@[j]@ != key@),
            None => forall|j: int| 0 <= j < v@.len() ==> v@[j]@ != key@,
        },
{
    let n = v.len();
    let mut i: usize = 0;
    while i < n
        invariant
            n == v@.len(),
            i <= n,
            forall|j: int| 0 <= j < i ==> v@[j]@ != key@,
        decreases n - i,
    {
        if v[i].eq_row(key) {
            return Some(i);
        }
        i += 1;
    }
    None
}

/// A bucket with the first occurrence of `key` removed.
pub open spec fn spec_bucket_del(rows: Seq<Seq<Value>>, key: Seq<Value>) -> Seq<Seq<Value>>
    decreases rows.len(),
{
    if rows.len() == 0 {
        rows
    } else if rows[0] == key {
        rows.drop_first()
    } else {
        seq![rows[0]].add(spec_bucket_del(rows.drop_first(), key))
    }
}

/// When the first occurrence is at `i`, the deletion is a removal at `i`.
pub proof fn lemma_bucket_del_at(rows: Seq<Seq<Value>>, key: Seq<Value>, i: int)
    requires
        0 <= i < rows.len(),
        rows[i] == key,
        forall|j: int| 0 <= j < i ==> rows[j] != key,
    ensures
        spec_bucket_del(rows, key) =~= rows.remove(i),
    decreases i,
{
    if i == 0 {
        assert(rows.remove(0) =~= rows.drop_first());
    } else {
        lemma_bucket_del_at(rows.drop_first(), key, i - 1);
        assert(rows.remove(i).drop_first() =~= rows.drop_first().remove(i - 1));
    }
}

/// When the key does not occur, the deletion changes nothing.
pub proof fn lemma_bucket_del_none(rows: Seq<Seq<Value>>, key: Seq<Value>)
    requires
        forall|j: int| 0 <= j < rows.len() ==> rows[j] != key,
    ensures
        spec_bucket_del(rows, key) =~= rows,
    decreases rows.len(),
{
    if rows.len() > 0 {
        lemma_bucket_del_none(rows.drop_first(), key);
        assert(seq![rows[0]].add(rows.drop_first()) =~= rows);
    }
}

/// The index after a key is added to its event-time bucket; a key already
/// present is left alone.
pub open spec fn spec_t2k_add(
    t2k: Seq<(i64, Seq<Seq<Value>>)>,
    ts: i64,
    key: Seq<Value>,
) -> Seq<(i64, Seq<Seq<Value>>)> {
    let rows = match spec_assoc_get(t2k, ts) {
        Some(rs) => rs,
        None => Seq::empty(),
    };
    let rows2 = if rows.contains(key) {
        rows
    } else {
        rows.push(key)
    };
    spec_spine_put(t2k, ts, rows2)
}

/// The index after a key is dropped from its event-time bucket; the bucket
/// is created empty when absent, as the write path does.
pub open spec fn spec_t2k_del(
    t2k: Seq<(i64, Seq<Seq<Value>>)>,
    ts: i64,
    key: Seq<Value>,
) -> Seq<(i64, Seq<Seq<Value>>)> {
    let rows = match spec_assoc_get(t2k, ts) {
        Some(rs) => rs,
        None => Seq::empty(),
    };
    spec_spine_put(t2k, ts, spec_bucket_del(rows, key))
}

impl ExpiringKeyValueState {
    /// Whether a record keyed at event time `ts` is late at `current`.
    pub open spec fn spec_is_late(self, current: i64, ts: i64) -> bool {
        match self.key_expiration_duration {
            Some(d) => ts < current - d,
            None => false,
        }
    }

    /// Whether the lateness of `ts` at `current` fits the timestamp range.
    pub open spec fn spec_late_fits(self, current: i64, ts: i64) -> bool {
        self.spec_is_late(current, ts) ==> current - self.key_expiration_duration->Some_0 - ts
            <= i64::MAX
    }

    /// Route the key into its event-time bucket.  Returns the event time.
    fn index_key(&mut self, ts: Timestamp, k: &Row)
        requires
            old(self).wf(),
        ensures
            final(self).wf(),
            final(self).t2k_view() =~= spec_t2k_add(old(self).t2k_view(), ts, k@),
            final(self).inner == old(self).inner,
            final(self).key_expiration_duration == old(self).key_expiration_duration,
            final(self).event_timestamp_from_row == old(self).event_timestamp_from_row,
    {
        let ghost t0 = self.t2k_view();
        let pos = spine_pos(&self.time2key, ts);
        let n = self.time2key.len();
        let existed = pos < n && self.time2key[pos].0 == ts;
        proof {
            lemma_sorted_unique(t0);
            if existed {
                lemma_assoc_get_at(t0, ts, pos as int);
            } else {
                assert forall|j: int| 0 <= j < t0.len() implies t0[j].0 != ts by {
                    if j > pos {
                        assert(t0[pos as int].0 < t0[j].0);
                    }
                }
                lemma_assoc_get_none(t0, ts);
            }
        }
        let mut bucket: Vec<Row>;
        if existed {
            let pair = self.time2key.remove(pos);
            bucket = pair.1;
        } else {
            bucket = Vec::new();
            proof {
                assert(bucket@.map_values(|r: Row| r@) =~= Seq::<Seq<Value>>::empty());
            }
        }
        let ghost b0 = bucket@.map_values(|r: Row| r@);
        match bucket_find(&bucket, k) {
            Some(i) => {
                proof {
                    assert(b0.contains(k@)) by {
                        assert(b0[i as int] == k@);
                    }
                }
            },
            None => {
                proof {
                    if b0.contains(k@) {
                        let w = choose|j: int| 0 <= j < b0.len() && b0[j] == k@;
                        assert(false);
                    }
                }
                bucket.push(k.duplicate());
                proof {
                    assert(bucket@.map_values(|r: Row| r@) =~= b0.push(k@));
                }
            },
        }
        let ghost b1 = bucket@.map_values(|r: Row| r@);
        proof {
            assert(spec_bucket_keys_unique(b1));
        }
        self.time2key.insert(pos, (ts, bucket));
        proof {
            if existed {
                assert(self.t2k_view() =~= t0.update(pos as int, (ts, b1)));
                lemma_spine_put_at(t0, ts, b1, pos as int);
            } else {
                assert forall|j: int| pos <= j < t0.len() implies t0[j].0 > ts by {
                    if j > pos {
                        assert(t0[pos as int].0 < t0[j].0);
                    }
                }
                assert(self.t2k_view() =~= t0.insert(pos as int, (ts, b1)));
                lemma_spine_put_insert(t0, ts, b1, pos as int);
            }
            assert forall|a: int, c: int|
                0 <= a < c < self.t2k_view().len() implies self.t2k_view()[a].0
                < self.t2k_view()[c].0 by {}
        }
    }

    /// Drop the key from its event-time bucket, creating the bucket when it
    /// is absent, as the original write path does.
    fn unindex_key(&mut self, ts: Timestamp, k: &Row)
        requires
            old(self).wf(),
        ensures
            final(self).wf(),
            final(self).t2k_view() =~= spec_t2k_del(old(self).t2k_view(), ts, k@),
            final(self).inner == old(self).inner,
            final(self).key_expiration_duration == old(self).key_expiration_duration,
            final(self).event_timestamp_from_row == old(self).event_timestamp_from_row,
    {
        let ghost t0 = self.t2k_view();
        let pos = spine_pos(&self.time2key, ts);
        let n = self.time2key.len();
        let existed = pos < n && self.time2key[pos].0 == ts;
        proof {
            lemma_sorted_unique(t0);
            if existed {
                lemma_assoc_get_at(t0, ts, pos as int);
            } else {
                assert forall|j: int| 0 <= j < t0.len() implies t0[j].0 != ts by {
                    if j > pos {
                        assert(t0[pos as int].0 < t0[j].0);
                    }
                }
                lemma_assoc_get_none(t0, ts);
            }
        }
        let mut bucket: Vec<Row>;
        if existed {
            let pair = self.time2key.remove(pos);
            bucket = pair.1;
        } else {
            bucket = Vec::new();
            proof {
                assert(bucket@.map_values(|r: Row| r@) =~= Seq::<Seq<Value>>::empty());
            }
        }
        let ghost b0 = bucket@.map_values(|r: Row| r@);
        match bucket_find(&bucket, k) {
            Some(i) => {
                proof {
                    lemma_bucket_del_at(b0, k@, i as int);
                }
                bucket.remove(i);
                proof {
                    assert(bucket@.map_values(|r: Row| r@) =~= b0.remove(i as int));
                }
            },
            None => {
                proof {
                    lemma_bucket_del_none(b0, k@);
                }
            },
        }
        let ghost b1 = bucket@.map_values(|r: Row| r@);
        proof {
            assert(spec_bucket_keys_unique(b1)) by {
                if b0.len() > 0 {
                    assert forall|a: int, c: int|
                        0 <= a < c < b1.len() implies b1[a] != b1[c] by {}
                }
            }
        }
        self.time2key.insert(pos, (ts, bucket));
        proof {
            if existed {
                assert(self.t2k_view() =~= t0.update(pos as int, (ts, b1)));
                lemma_spine_put_at(t0, ts, b1, pos as int);
            } else {
                assert forall|j: int| pos <= j < t0.len() implies t0[j].0 > ts by {
                    if j > pos {
                        assert(t0[pos as int].0 < t0[j].0);
                    }
                }
                assert(self.t2k_view() =~= t0.insert(pos as int, (ts, b1)));
                lemma_spine_put_insert(t0, ts, b1, pos as int);
            }
            assert forall|a: int, c: int|
                0 <= a < c < self.t2k_view().len() implies self.t2k_view()[a].0
                < self.t2k_view()[c].0 by {}
        }
    }

    /// Bind a key row to a value row.  A key whose event time has fallen
    /// behind `current - TTL` is rejected as late data; an event time at the
    /// boundary is still accepted.
    pub fn insert(&mut self, current: Timestamp, k: Row, v: Row) -> (r: Result<
        Option<Row>,
        EvalError,
    >)
        requires
            old(self).wf(),
            old(self).event_timestamp_from_row.spec_applies_to(k@),
            old(self).spec_ttl_ok(current),
            match old(self).spec_event_ts(k@) {
                Some(ts) => old(self).spec_late_fits(current, ts),
                None => true,
            },
        ensures
            final(self).key_expiration_duration == old(self).key_expiration_duration,
            final(self).event_timestamp_from_row == old(self).event_timestamp_from_row,
            match old(self).spec_event_ts(k@) {
                None => (r matches Err(e) && e is TypeMismatch) && *final(self) == *old(self),
                Some(ts) => {
                    if old(self).spec_is_late(current, ts) {
                        &&& *final(self) == *old(self)
                        &&& (r matches Err(e) && (e matches EvalError::LateDataDiscarded {
                            late_by,
                        } && late_by as int == current
                            - old(self).key_expiration_duration->Some_0 - ts))
                    } else {
                        &&& final(self).wf()
                        &&& final(self).t2k_view() =~= spec_t2k_add(old(self).t2k_view(), ts, k@)
                        &&& final(self).inner.inner_view() =~= spec_assoc_set(
                            old(self).inner.inner_view(),
                            k@,
                            v@,
                        )
                        &&& final(self).inner.delta_view() =~= crate::diff_map::spec_delta_after_insert(
                            old(self).inner.delta_view(),
                            k@,
                            spec_assoc_get(old(self).inner.inner_view(), k@),
                            v@,
                        )
                        &&& match spec_assoc_get(old(self).inner.inner_view(), k@) {
                            Some(x) => r matches Ok(o) && (o matches Some(row) && row@ == x),
                            None => r == Ok::<Option<Row>, EvalError>(None),
                        }
                    }
                },
            },
    {
        let ts = match self.extract_event_ts(&k) {
            Ok(ts) => ts,
            Err(e) => {
                return Err(e);
            },
        };
        let expire_at = self.get_expire_time(current);
        if let Some(e) = expire_at {
            if ts < e {
                return Err(EvalError::LateDataDiscarded { late_by: (e - ts) as u64 });
            }
        }
        self.index_key(ts, &k);
        let ret = self.inner.insert(k, v);
        Ok(ret)
    }

    /// Unbind a key row, under the same lateness rule as
    /// [`ExpiringKeyValueState::insert`].
    pub fn remove(&mut self, current: Timestamp, k: &Row) -> (r: Result<Option<Row>, EvalError>)
        requires
            old(self).wf(),
            old(self).event_timestamp_from_row.spec_applies_to(k@),
            old(self).spec_ttl_ok(current),
            match old(self).spec_event_ts(k@) {
                Some(ts) => old(self).spec_late_fits(current, ts),
                None => true,
            },
        ensures
            final(self).key_expiration_duration == old(self).key_expiration_duration,
            final(self).event_timestamp_from_row == old(self).event_timestamp_from_row,
            match old(self).spec_event_ts(k@) {
                None => (r matches Err(e) && e is TypeMismatch) && *final(self) == *old(self),
                Some(ts) => {
                    if old(self).spec_is_late(current, ts) {
                        &&& *final(self) == *old(self)
                        &&& (r matches Err(e) && (e matches EvalError::LateDataDiscarded {
                            late_by,
                        } && late_by as int == current
                            - old(self).key_expiration_duration->Some_0 - ts))
                    } else {
                        &&& final(self).wf()
                        &&& final(self).t2k_view() =~= spec_t2k_del(old(self).t2k_view(), ts, k@)
                        &&& final(self).inner.inner_view() =~= crate::diff_map::spec_assoc_del(
                            old(self).inner.inner_view(),
                            k@,
                        )
                        &&& final(self).inner.delta_view() =~= crate::diff_map::spec_delta_after_remove(
                            old(self).inner.delta_view(),
                            k@,
                            spec_assoc_get(old(self).inner.inner_view(), k@),
                        )
                        &&& match spec_assoc_get(old(self).inner.inner_view(), k@) {
                            Some(x) => r matches Ok(o) && (o matches Some(row) && row@ == x),
                            None => r == Ok::<Option<Row>, EvalError>(None),
                        }
                    }
                },
            },
    {
        let ts = match self.extract_event_ts(k) {
            Ok(ts) => ts,
            Err(e) => {
                return Err(e);
            },
        };
        let expire_at = self.get_expire_time(current);
        if let Some(e) = expire_at {
            if ts < e {
                return Err(EvalError::LateDataDiscarded { late_by: (e - ts) as u64 });
            }
        }
        self.unindex_key(ts, k);
        let ret = self.inner.remove(k);
        Ok(ret)
    }

    /// Drain the transitions recorded since the last call, as the underlying
    /// map does.
    pub fn gen_diff(&mut self, tick: Timestamp) -> (r: Vec<((Row, Row), Timestamp, Diff)>)
        requires
            old(self).inner.wf(),
        ensures
            final(self).inner.wf(),
            final(self).t2k_view() == old(self).t2k_view(),
            final(self).key_expiration_duration == old(self).key_expiration_duration,
            final(self).event_timestamp_from_row == old(self).event_timestamp_from_row,
            final(self).inner.inner_view() == old(self).inner.inner_view(),
            final(self).inner.delta_view() =~= Seq::<
                (Seq<Value>, (Option<Seq<Value>>, Option<Seq<Value>>)),
            >::empty(),
            r@.map_values(|e: ((Row, Row), Timestamp, Diff)| ((e.0.0@, e.0.1@), e.1, e.2))
                =~= crate::diff_map::spec_gen_diff(old(self).inner.delta_view(), tick),
    {
        self.inner.gen_diff(tick)
    }
}

/// Flattened keys split at a bucket boundary.
pub proof fn lemma_t2k_keys_split(bs: Seq<(i64, Seq<Seq<Value>>)>, j: int)
    requires
        0 <= j <= bs.len(),
    ensures
        spec_t2k_keys(bs) =~= spec_t2k_keys(bs.take(j)).add(spec_t2k_keys(bs.skip(j))),
    decreases j,
{
    if j == 0 {
        assert(bs.take(0) =~= Seq::<(i64, Seq<Seq<Value>>)>::empty());
        assert(spec_t2k_keys(Seq::<(i64, Seq<Seq<Value>>)>::empty()) == Seq::<Seq<Value>>::empty());
        assert(bs.skip(0) =~= bs);
    } else {
        lemma_t2k_keys_split(bs.drop_first(), j - 1);
        assert(bs.take(j).drop_first() =~= bs.drop_first().take(j - 1));
        assert(bs.skip(j) =~= bs.drop_first().skip(j - 1));
        assert(bs.take(j)[0] == bs[0]);
        assert(spec_t2k_keys(bs.take(j)) == bs[0].1.add(spec_t2k_keys(bs.drop_first().take(j - 1))));
    }
}

impl ExpiringKeyValueState {
    /// Silently evict every key whose event time is strictly older than
    /// `current - TTL`, returning how many keys left.  No transitions are
    /// recorded: the evicted rows are no longer observable downstream.
    pub fn trunc_expired(&mut self, cur_time: Timestamp) -> (r: usize)
        requires
            old(self).wf(),
            old(self).spec_ttl_ok(cur_time),
            spec_t2k_count(old(self).t2k_view()) <= usize::MAX,
        ensures
            final(self).wf(),
            final(self).key_expiration_duration == old(self).key_expiration_duration,
            final(self).event_timestamp_from_row == old(self).event_timestamp_from_row,
            match old(self).spec_expire_time(cur_time) {
                None => r == 0 && *final(self) == *old(self),
                Some(e) => {
                    let cut = spec_cut_lt(old(self).t2k_view(), e as i64);
                    &&& final(self).t2k_view() =~= old(self).t2k_view().skip(cut)
                    &&& r == spec_t2k_count(old(self).t2k_view().take(cut))
                    &&& final(self).inner.inner_view() =~= spec_del_keys(
                        old(self).inner.inner_view(),
                        spec_t2k_keys(old(self).t2k_view().take(cut)),
                    )
                    &&& final(self).inner.delta_view() == old(self).inner.delta_view()
                },
            },
    {
        let expire_time = match self.get_expire_time(cur_time) {
            Some(t) => t,
            None => {
                return 0;
            },
        };
        let ghost t0 = self.t2k_view();
        let ghost m0 = self.inner.inner_view();
        let n0 = self.time2key.len();
        let mut cnt: usize = 0;
        let mut k: usize = 0;
        proof {
            assert(t0.len() == n0);
            assert(t0.take(0) =~= Seq::<(i64, Seq<Seq<Value>>)>::empty());
            assert(t0.skip(0) =~= t0);
            assert(spec_t2k_keys(Seq::<(i64, Seq<Seq<Value>>)>::empty()) == Seq::<
                Seq<Value>,
            >::empty());
            assert(spec_del_keys(m0, Seq::<Seq<Value>>::empty()) == m0);
        }
        #[verifier::loop_isolation(false)]
        while self.time2key.len() > 0 && self.time2key[0].0 < expire_time
            invariant
                k <= t0.len(),
                forall|j: int| 0 <= j < k ==> t0[j].0 < expire_time,
                self.t2k_view() =~= t0.skip(k as int),
                self.wf(),
                self.key_expiration_duration == old(self).key_expiration_duration,
                self.event_timestamp_from_row == old(self).event_timestamp_from_row,
                self.inner.delta_view() == old(self).inner.delta_view(),
                self.inner.inner_view() =~= spec_del_keys(m0, spec_t2k_keys(t0.take(k as int))),
                cnt == spec_t2k_count(t0.take(k as int)),
            decreases self.time2key.len(),
        {
            let ghost tk = self.t2k_view();
            let pair = self.time2key.remove(0);
            let bucket = pair.1;
            proof {
                assert(tk[0] == t0[k as int]);
                assert(self.t2k_view() =~= tk.drop_first());
                assert(self.t2k_view() =~= t0.skip(k + 1 as int));
                lemma_t2k_keys_split(t0, k as int);
                lemma_t2k_keys_split(t0, k + 1 as int);
                lemma_t2k_keys_snoc(t0.take(k as int), t0[k as int]);
                assert(t0.take(k + 1 as int) =~= t0.take(k as int).push(t0[k as int]));
                assert(spec_t2k_keys(t0.take(k + 1 as int)).len() <= spec_t2k_keys(t0).len());
            }
            let ghost bv = bucket@.map_values(|r: Row| r@);
            let ghost mk = self.inner.inner_view();
            cnt = cnt + bucket.len();
            let m = bucket.len();
            let mut x: usize = 0;
            proof {
                assert(bv.take(0) =~= Seq::<Seq<Value>>::empty());
                assert(spec_del_keys(mk, Seq::<Seq<Value>>::empty()) == mk);
            }
            #[verifier::loop_isolation(false)]
            while x < m
                invariant
                    m == bv.len(),
                    x <= m,
                    bucket@.map_values(|r: Row| r@) == bv,
                    self.wf(),
                    self.t2k_view() =~= t0.skip(k + 1 as int),
                    self.key_expiration_duration == old(self).key_expiration_duration,
                    self.event_timestamp_from_row == old(self).event_timestamp_from_row,
                    self.inner.delta_view() == old(self).inner.delta_view(),
                    self.inner.inner_view() =~= spec_del_keys(mk, bv.take(x as int)),
                decreases m - x,
            {
                proof {
                    assert(bv.take(x + 1 as int) =~= bv.take(x as int).push(bv[x as int]));
                    lemma_del_keys_snoc(mk, bv.take(x as int), bv[x as int]);
                }
                self.inner.remove_silent(&bucket[x]);
                x += 1;
            }
            proof {
                assert(bv.take(m as int) =~= bv);
                lemma_del_keys_concat(m0, spec_t2k_keys(t0.take(k as int)), bv);
                assert(spec_t2k_keys(t0.take(k + 1 as int)) =~= spec_t2k_keys(
                    t0.take(k as int),
                ).add(bv));
                assert(k < t0.len());
            }
            k += 1;
        }
        proof {
            if k < t0.len() {
                assert(t0.skip(k as int)[0] == t0[k as int]);
            }
            lemma_cut_lt_at::<Seq<Seq<Value>>>(t0, expire_time, k as int);
        }
        cnt
    }
}

/// Removing one more key after a batch is removing the extended batch.
pub proof fn lemma_del_keys_snoc(
    m: Seq<(Seq<Value>, Seq<Value>)>,
    a: Seq<Seq<Value>>,
    key: Seq<Value>,
)
    ensures
        spec_del_keys(m, a.push(key)) == spec_assoc_del(spec_del_keys(m, a), key),
    decreases a.len(),
{
    if a.len() == 0 {
        assert(a.push(key).drop_first() =~= Seq::<Seq<Value>>::empty());
        assert(a.push(key)[0] == key);
        assert(spec_del_keys(spec_assoc_del(m, key), Seq::<Seq<Value>>::empty()) == spec_assoc_del(
            m,
            key,
        ));
        assert(spec_del_keys(m, a) == m);
    } else {
        assert(a.push(key)[0] == a[0]);
        assert(a.push(key).drop_first() =~= a.drop_first().push(key));
        lemma_del_keys_snoc(spec_assoc_del(m, a[0]), a.drop_first(), key);
    }
}

impl Default for ExpiringKeyValueState {
    /// An empty state without expiry whose event time reads as the constant
    /// zero.
    fn default() -> (r: Self)
        ensures
            r.wf(),
            r.key_expiration_duration is None,
            r.event_timestamp_from_row == ScalarExpr::Literal(
                Value::Int64(0),
                crate::value::ConcreteDataType::Int64,
            ),
            r.inner.inner_view() == Seq::<(Seq<Value>, Seq<Value>)>::empty(),
            r.t2k_view() == Seq::<(i64, Seq<Seq<Value>>)>::empty(),
    {
        ExpiringKeyValueState::new(
            None,
            ScalarExpr::Literal(Value::Int64(0), crate::value::ConcreteDataType::Int64),
        )
    }
}

impl ScheduledAction for ExpiringKeyValueState {
    /// The wake-up sum `TTL + earliest event time` must fit the timestamp
    /// range.
    open spec fn spec_schd_req(&self, now: Timestamp) -> bool {
        self.t2k_view().len() > 0 && self.key_expiration_duration is Some
            ==> i64::MIN <= self.key_expiration_duration->Some_0 + self.t2k_view()[0].0 <= i64::MAX
    }

    /// The soonest a bucket will expire: the earliest event time plus the
    /// TTL; nothing is scheduled without a TTL or pending keys.
    open spec fn spec_schd_at(&self, now: Timestamp) -> Option<Timestamp> {
        if self.t2k_view().len() == 0 {
            None
        } else {
            match self.key_expiration_duration {
                Some(d) => Some((d + self.t2k_view()[0].0) as i64),
                None => None,
            }
        }
    }

    fn schd_at(&self, now: Timestamp) -> (r: Option<Timestamp>) {
        if self.time2key.len() == 0 {
            None
        } else {
            match self.key_expiration_duration {
                Some(d) => Some(d + self.time2key[0].0),
                None => None,
            }
        }
    }
}

/// Identifier of a subgraph in the hosting dataflow runtime.
pub type SubgraphId = u64;

/// Identifier of a piece of operator-local state.
#[derive(Debug, Clone, Copy, PartialEq, Eq, PartialOrd, Ord, Hash, Structural)]
pub struct StateId(pub usize);

impl View for StateId {
    type V = StateId;

    open spec fn view(&self) -> StateId {
        *self
    }
}

impl AssocKey for StateId {
    fn key_eq(&self, other: &Self) -> (r: bool) {
        self.0 == other.0
    }
}

/// Worker-local bookkeeping for one dataflow: the current logical time, the
/// owner subgraph of each piece of state, and the pending wake-ups.
///
/// The data channels that feed and drain the dataflow live with the hosting
/// runtime, not here.
#[derive(Debug)]
pub struct ComputeState {
    /// Current time, updated before each tick to progress the dataflow.
    pub current_time: Timestamp,
    /// Which subgraph each piece of state is registered to, if any yet.
    pub state_to_subgraph: Vec<(StateId, Option<SubgraphId>)>,
    /// Subgraphs to run, keyed by the time they asked to be woken at.
    pub scheduled_actions: Vec<(Timestamp, Vec<SubgraphId>)>,
}

impl ComputeState {
    /// Registered state ids are distinct.
    pub open spec fn wf(self) -> bool {
        spec_keys_unique(self.state_to_subgraph@)
    }

    pub fn new() -> (r: ComputeState)
        ensures
            r.wf(),
            r.current_time == 0,
            r.state_to_subgraph@ == Seq::<(StateId, Option<SubgraphId>)>::empty(),
            r.scheduled_actions@ == Seq::<(Timestamp, Vec<SubgraphId>)>::empty(),
    {
        ComputeState {
            current_time: 0,
            state_to_subgraph: Vec::new(),
            scheduled_actions: Vec::new(),
        }
    }

    /// Reserve the first unused state id at or after the map's size and
    /// record it as not yet registered.
    pub fn alloc_next_state_id(&mut self) -> (r: StateId)
        requires
            old(self).wf(),
            exists|x: usize|
                x >= old(self).state_to_subgraph@.len() && !spec_assoc_contains(
                    old(self).state_to_subgraph@,
                    StateId(x),
                ),
        ensures
            final(self).wf(),
            !spec_assoc_contains(old(self).state_to_subgraph@, r),
            r.0 >= old(self).state_to_subgraph@.len(),
            forall|y: usize|
                old(self).state_to_subgraph@.len() <= y < r.0 ==> spec_assoc_contains(
                    old(self).state_to_subgraph@,
                    StateId(y),
                ),
            final(self).state_to_subgraph@ =~= old(self).state_to_subgraph@.push((r, None)),
            final(self).current_time == old(self).current_time,
            final(self).scheduled_actions == old(self).scheduled_actions,
    {
        let ghost s0 = self.state_to_subgraph@;
        let ghost w = choose|x: usize|
            x >= s0.len() && !spec_assoc_contains(s0, StateId(x));
        let n = self.state_to_subgraph.len();
        let mut id: usize = n;
        #[verifier::loop_isolation(false)]
        loop
            invariant
                n <= id <= w,
                n == s0.len(),
                self.state_to_subgraph@ == s0,
                forall|y: usize|
                    n <= y < id ==> spec_assoc_contains(s0, StateId(y)),
            decreases w - id,
        {
            match assoc_find(&self.state_to_subgraph, &StateId(id)) {
                Some(i) => {
                    proof {
                        lemma_assoc_get_at(s0, StateId(id), i as int);
                        assert(id != w);
                    }
                    id = id + 1;
                },
                None => {
                    proof {
                        lemma_assoc_get_none(s0, StateId(id));
                    }
                    break;
                },
            }
        }
        proof {
            lemma_assoc_get_none(s0, StateId(id));
        }
        self.state_to_subgraph.push((StateId(id), None));
        proof {
            assert forall|a: int, b: int|
                0 <= a < b < self.state_to_subgraph@.len()
                implies self.state_to_subgraph@[a].0 != self.state_to_subgraph@[b].0 by {
                if b == self.state_to_subgraph@.len() - 1 {
                    if self.state_to_subgraph@[a].0 == StateId(id) {
                        lemma_assoc_get_at(s0, StateId(id), a);
                    }
                }
            }
        }
        StateId(id)
    }

    /// Register the state under a subgraph; any previously registered
    /// subgraph is returned.
    pub fn register_state(&mut self, id: StateId, subgraph_id: SubgraphId) -> (r: Option<
        SubgraphId,
    >)
        requires
            old(self).wf(),
        ensures
            final(self).wf(),
            final(self).state_to_subgraph@ =~= spec_assoc_set(
                old(self).state_to_subgraph@,
                id,
                Some(subgraph_id),
            ),
            r == match spec_assoc_get(old(self).state_to_subgraph@, id) {
                Some(o) => o,
                None => None::<SubgraphId>,
            },
            final(self).current_time == old(self).current_time,
            final(self).scheduled_actions == old(self).scheduled_actions,
    {
        let ghost s0 = self.state_to_subgraph@;
        match assoc_find(&self.state_to_subgraph, &id) {
            Some(i) => {
                proof {
                    lemma_assoc_get_at(s0, id, i as int);
                    lemma_assoc_set_at(s0, id, Some(subgraph_id), i as int);
                }
                let prev = self.state_to_subgraph[i].1;
                self.state_to_subgraph.set(i, (id, Some(subgraph_id)));
                proof {
                    assert(self.state_to_subgraph@ =~= s0.update(i as int, (id, Some(subgraph_id))));
                    assert forall|a: int, b: int|
                        0 <= a < b < self.state_to_subgraph@.len()
                        implies self.state_to_subgraph@[a].0 != self.state_to_subgraph@[b].0 by {
                        assert(s0[a].0 != s0[b].0);
                    }
                }
                prev
            },
            None => {
                proof {
                    lemma_assoc_get_none(s0, id);
                    lemma_assoc_set_push(s0, id, Some(subgraph_id));
                }
                self.state_to_subgraph.push((id, Some(subgraph_id)));
                None
            },
        }
    }
}

} // verus!
