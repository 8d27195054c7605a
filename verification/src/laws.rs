//! The crate-level laws: statements that relate several operations, proved
//! over the same ghost models the operations' contracts use.

use vstd::prelude::*;

use crate::accum::{
    spec_accum_eval, spec_accum_state, spec_accum_try_from, spec_accum_update,
    spec_accum_update_seq, Accum, AggregateFunc,
};
use crate::diff_map::spec_gen_diff;
use crate::state::{
    lemma_cut_at, spec_cut, spec_cut_lt, spec_flatten, spec_t2k_keys, lemma_t2k_keys_split,
};
use crate::value::Value;

verus! {

/// Accumulator state round-trip: flattening an accumulator to its state
/// row and rebuilding it for the same aggregate function yields an
/// accumulator with the same state row and the same readout.
///
/// A float accumulator whose count of non-null values is zero is the one
/// exception: rebuilding forces its sum to zero, so the law asks that such
/// a state carry no residue.
pub proof fn lemma_accum_state_round_trip(a: Accum, f: AggregateFunc)
    requires
        a is Bool ==> f.spec_is_bool_fn(),
        a is SimpleNumber ==> f.spec_is_number_sum_fn(),
        a is Float ==> f.spec_is_float_sum_fn(),
        a is OrdValue ==> f.spec_is_ord_fn() && !f.spec_is_bool_fn(),
        a matches Accum::Float(x) ==> (x.non_nulls != 0 || x.accum == 0),
    ensures
        spec_accum_try_from(f, spec_accum_state(a)) is Ok,
        spec_accum_state(spec_accum_try_from(f, spec_accum_state(a))->Ok_0) == spec_accum_state(
            a,
        ),
        spec_accum_eval(spec_accum_try_from(f, spec_accum_state(a))->Ok_0, f) == spec_accum_eval(
            a,
            f,
        ),
{
    let st = spec_accum_state(a);
    match a {
        Accum::Bool(b) => {
            assert(st.len() == 2);
            assert(st[0] == Value::Int64(b.trues));
            assert(st[1] == Value::Int64(b.falses));
        },
        Accum::SimpleNumber(x) => {
            assert(st.len() == 2);
            assert(st[1] == Value::Int64(x.non_nulls));
        },
        Accum::Float(x) => {
            assert(st.len() == 5);
            assert(st[0] == Value::Float64(x.accum));
            assert(st[1] == Value::Int64(x.pos_infs));
            assert(st[2] == Value::Int64(x.neg_infs));
            assert(st[3] == Value::Int64(x.nans));
            assert(st[4] == Value::Int64(x.non_nulls));
            let a2 = spec_accum_try_from(f, st)->Ok_0;
            assert(spec_accum_state(a2) =~= st);
        },
        Accum::OrdValue(x) => {
            assert(st.len() == 2);
            assert(st[1] == Value::Int64(x.non_nulls));
            let a2 = spec_accum_try_from(f, st)->Ok_0;
            assert(spec_accum_state(a2) =~= st);
        },
    }
}

/// Generating diffs drains the transition buffer, so a second immediate
/// generation yields an empty batch: the flattening of an empty buffer is
/// empty, whatever the tick.
pub proof fn lemma_gen_diff_idempotent<A, BV>(tick: i64)
    ensures
        spec_gen_diff(Seq::<(A, (Option<BV>, Option<BV>))>::empty(), tick) == Seq::<
            ((A, BV), i64, i64),
        >::empty(),
{
}

/// What `spec_cut` counts on a sorted spine: a prefix at or below the
/// bound, with the boundary bucket above it.
pub proof fn lemma_cut_props<B>(sp: Seq<(i64, B)>, t: i64)
    requires
        crate::assoc::spec_sorted_strict(sp),
    ensures
        0 <= spec_cut(sp, t) <= sp.len(),
        forall|j: int| 0 <= j < spec_cut(sp, t) ==> (#[trigger] sp[j]).0 <= t,
        spec_cut(sp, t) < sp.len() ==> sp[spec_cut(sp, t)].0 > t,
    decreases sp.len(),
{
    if sp.len() > 0 && sp[0].0 <= t {
        lemma_cut_props(sp.drop_first(), t);
        assert forall|j: int| 0 <= j < spec_cut(sp, t) implies (#[trigger] sp[j]).0 <= t by {
            if j > 0 {
                assert(sp.drop_first()[j - 1].0 <= t);
            }
        }
    }
}

/// Likewise for the strict cut.
pub proof fn lemma_cut_lt_props<B>(sp: Seq<(i64, B)>, t: i64)
    requires
        crate::assoc::spec_sorted_strict(sp),
    ensures
        0 <= spec_cut_lt(sp, t) <= sp.len(),
        forall|j: int| 0 <= j < spec_cut_lt(sp, t) ==> (#[trigger] sp[j]).0 < t,
        spec_cut_lt(sp, t) < sp.len() ==> sp[spec_cut_lt(sp, t)].0 >= t,
    decreases sp.len(),
{
    if sp.len() > 0 && sp[0].0 < t {
        lemma_cut_lt_props(sp.drop_first(), t);
        assert forall|j: int| 0 <= j < spec_cut_lt(sp, t) implies (#[trigger] sp[j]).0 < t by {
            if j > 0 {
                assert(sp.drop_first()[j - 1].0 < t);
            }
        }
    }
}

/// Flattening splits at any bucket boundary.
proof fn lemma_flatten_split(s: Seq<(i64, Seq<(Seq<Value>, i64)>)>, k: int)
    requires
        0 <= k <= s.len(),
    ensures
        spec_flatten(s) =~= spec_flatten(s.take(k)).add(spec_flatten(s.skip(k))),
    decreases k,
{
    if k == 0 {
        assert(s.take(0) =~= Seq::<(i64, Seq<(Seq<Value>, i64)>)>::empty());
        assert(spec_flatten(Seq::<(i64, Seq<(Seq<Value>, i64)>)>::empty()) == Seq::<
            (Seq<Value>, i64, i64),
        >::empty());
        assert(s.skip(0) =~= s);
    } else {
        lemma_flatten_split(s.drop_first(), k - 1);
        assert(s.take(k).drop_first() =~= s.drop_first().take(k - 1));
        assert(s.skip(k) =~= s.drop_first().skip(k - 1));
        assert(s.take(k)[0] == s[0]);
        assert(spec_flatten(s.take(k)) == crate::state::spec_bucket_flat(s[0]).add(
            spec_flatten(s.drop_first().take(k - 1)),
        ));
    }
}

/// Temporal filter ordering: releasing up to `t1` and then up to `t2`
/// emits, in concatenation, exactly what releasing up to `t2` at once
/// would, and leaves the same spine behind.
pub proof fn lemma_trunc_until_compose(sp: Seq<(i64, Seq<(Seq<Value>, i64)>)>, t1: i64, t2: i64)
    requires
        crate::assoc::spec_sorted_strict(sp),
        t1 <= t2,
    ensures
        ({
            let c1 = spec_cut(sp, t1);
            let rest = sp.skip(c1);
            let c2 = spec_cut(rest, t2);
            &&& spec_flatten(sp.take(c1)).add(spec_flatten(rest.take(c2))) =~= spec_flatten(
                sp.take(spec_cut(sp, t2)),
            )
            &&& rest.skip(c2) =~= sp.skip(spec_cut(sp, t2))
        }),
{
    let c1 = spec_cut(sp, t1);
    let rest = sp.skip(c1);
    let cfull = spec_cut(sp, t2);
    lemma_cut_props(sp, t1);
    lemma_cut_props(sp, t2);
    assert(crate::assoc::spec_sorted_strict(rest)) by {
        assert forall|i: int, j: int|
            0 <= i < j < rest.len() implies rest[i].0 < rest[j].0 by {
            assert(rest[i] == sp[i + c1]);
            assert(rest[j] == sp[j + c1]);
        }
    }
    // the combined cut lands at cfull - c1 within the rest
    assert(c1 <= cfull) by {
        if c1 > cfull {
            assert(sp[cfull].0 > t2);
            assert(sp[cfull].0 <= t1);
        }
    }
    assert forall|j: int| 0 <= j < cfull - c1 implies (#[trigger] rest[j]).0 <= t2 by {
        assert(rest[j] == sp[j + c1]);
    }
    if cfull - c1 < rest.len() {
        assert(rest[cfull - c1] == sp[cfull]);
    }
    lemma_cut_at(rest, t2, cfull - c1);
    assert(spec_cut(rest, t2) == cfull - c1);
    lemma_flatten_split(sp.take(cfull), c1);
    assert(sp.take(cfull).take(c1) =~= sp.take(c1));
    assert(sp.take(cfull).skip(c1) =~= rest.take(cfull - c1));
    assert(rest.skip(cfull - c1) =~= sp.skip(cfull));
}

/// Expiry monotonicity: raising the clock can only widen the set of
/// expired keys.  The keys expired at `a` are a prefix of — and so
/// contained in — the keys expired at `b`.
pub proof fn lemma_trunc_expired_monotone(t2k: Seq<(i64, Seq<Seq<Value>>)>, a: i64, b: i64)
    requires
        crate::assoc::spec_sorted_strict(t2k),
        a <= b,
    ensures
        spec_cut_lt(t2k, a) <= spec_cut_lt(t2k, b),
        forall|k: Seq<Value>|
            spec_t2k_keys(t2k.take(spec_cut_lt(t2k, a))).contains(k)
                ==> spec_t2k_keys(t2k.take(spec_cut_lt(t2k, b))).contains(k),
{
    let ca = spec_cut_lt(t2k, a);
    let cb = spec_cut_lt(t2k, b);
    lemma_cut_lt_props(t2k, a);
    lemma_cut_lt_props(t2k, b);
    assert(ca <= cb) by {
        if ca > cb {
            assert(t2k[cb].0 >= b);
            assert(t2k[cb].0 < a);
        }
    }
    lemma_t2k_keys_split(t2k.take(cb), ca);
    assert(t2k.take(cb).take(ca) =~= t2k.take(ca));
    assert forall|k: Seq<Value>|
        spec_t2k_keys(t2k.take(ca)).contains(k) implies spec_t2k_keys(t2k.take(cb)).contains(
        k,
    ) by {
        let i = choose|i: int|
            0 <= i < spec_t2k_keys(t2k.take(ca)).len() && spec_t2k_keys(t2k.take(ca))[i] == k;
        assert(spec_t2k_keys(t2k.take(cb))[i] == k);
    }
}

/// A fold of an operation over a sequence, from the front.
pub open spec fn spec_fold_ops<A, T>(a: A, s: Seq<T>, op: spec_fn(A, T) -> A) -> A
    decreases s.len(),
{
    if s.len() == 0 {
        a
    } else {
        spec_fold_ops(op(a, s[0]), s.drop_first(), op)
    }
}

/// Pulling any element of the sequence to the front does not change the
/// fold of an exchange-commuting operation.
proof fn lemma_fold_ops_remove<A, T>(
    a: A,
    s: Seq<T>,
    op: spec_fn(A, T) -> A,
    inv: spec_fn(A) -> bool,
    p: spec_fn(T) -> bool,
    i: int,
)
    requires
        0 <= i < s.len(),
        inv(a),
        forall|j: int| 0 <= j < s.len() ==> p(#[trigger] s[j]),
        forall|b: A, x: T| inv(b) && p(x) ==> inv(#[trigger] op(b, x)),
        forall|b: A, x: T, y: T|
            #![trigger op(op(b, x), y)]
            inv(b) && p(x) && p(y) ==> op(op(b, x), y) == op(op(b, y), x),
    ensures
        spec_fold_ops(a, s, op) == spec_fold_ops(op(a, s[i]), s.remove(i), op),
    decreases i,
{
    if i == 0 {
        assert(s.remove(0) =~= s.drop_first());
    } else {
        let rest = s.drop_first();
        assert forall|j: int| 0 <= j < rest.len() implies p(#[trigger] rest[j]) by {
            assert(rest[j] == s[j + 1]);
        }
        assert(rest[i - 1] == s[i]);
        lemma_fold_ops_remove(op(a, s[0]), rest, op, inv, p, i - 1);
        assert(op(op(a, s[0]), s[i]) == op(op(a, s[i]), s[0]));
        assert(s.remove(i)[0] == s[0]);
        assert(s.remove(i).drop_first() =~= rest.remove(i - 1));
    }
}

/// Folding an exchange-commuting operation gives the same result on any
/// two sequences with the same elements.
proof fn lemma_fold_ops_perm<A, T>(
    a: A,
    s1: Seq<T>,
    s2: Seq<T>,
    op: spec_fn(A, T) -> A,
    inv: spec_fn(A) -> bool,
    p: spec_fn(T) -> bool,
)
    requires
        s1.to_multiset() == s2.to_multiset(),
        inv(a),
        forall|j: int| 0 <= j < s1.len() ==> p(#[trigger] s1[j]),
        forall|j: int| 0 <= j < s2.len() ==> p(#[trigger] s2[j]),
        forall|b: A, x: T| inv(b) && p(x) ==> inv(#[trigger] op(b, x)),
        forall|b: A, x: T, y: T|
            #![trigger op(op(b, x), y)]
            inv(b) && p(x) && p(y) ==> op(op(b, x), y) == op(op(b, y), x),
    ensures
        spec_fold_ops(a, s1, op) == spec_fold_ops(a, s2, op),
    decreases s1.len(),
{
    s1.to_multiset_ensures();
    s2.to_multiset_ensures();
    if s1.len() == 0 {
        assert(s2.len() == 0);
    } else {
        let x = s1[0];
        assert(s1.contains(x));
        assert(s2.to_multiset().count(x) > 0);
        assert(s2.contains(x));
        let i = choose|i: int| 0 <= i < s2.len() && s2[i] == x;
        lemma_fold_ops_remove(a, s2, op, inv, p, i);
        assert(s1.remove(0).to_multiset() =~= s1.to_multiset().remove(x));
        assert(s2.remove(i).to_multiset() =~= s2.to_multiset().remove(x));
        assert(s1.remove(0) =~= s1.drop_first());
        assert forall|j: int| 0 <= j < s1.drop_first().len() implies p(
            #[trigger] s1.drop_first()[j],
        ) by {
            assert(s1.drop_first()[j] == s1[j + 1]);
        }
        assert forall|j: int| 0 <= j < s2.remove(i).len() implies p(
            #[trigger] s2.remove(i)[j],
        ) by {
            if j < i {
                assert(s2.remove(i)[j] == s2[j]);
            } else {
                assert(s2.remove(i)[j] == s2[j + 1]);
            }
        }
        lemma_fold_ops_perm(op(a, x), s1.drop_first(), s2.remove(i), op, inv, p);
    }
}

/// The accumulator state with its counters widened to unbounded integers:
/// `(first counter, second counter, held value)`.
pub open spec fn spec_widened_state(a: Accum) -> (int, int, Option<Value>) {
    match a {
        Accum::Bool(b) => (b.trues as int, b.falses as int, None),
        Accum::SimpleNumber(x) => (x.accum as int, x.non_nulls as int, None),
        Accum::Float(x) => (x.accum as int, x.non_nulls as int, None),
        Accum::OrdValue(x) => (0, x.non_nulls as int, x.val),
    }
}

/// One update applied to the widened state, exactly as the machine-level
/// step does but without truncation.
pub open spec fn spec_widened_step(f: AggregateFunc, g: (int, int, Option<Value>), e: (Value, i64)) -> (
    int,
    int,
    Option<Value>,
) {
    if f.spec_is_bool_fn() {
        if e.0 == Value::Boolean(true) {
            (g.0 + e.1, g.1, g.2)
        } else {
            (g.0, g.1 + e.1, g.2)
        }
    } else if f.spec_is_number_sum_fn() {
        (
            g.0 + (match crate::accum::spec_value_widen(e.0) {
                Some(w) => w,
                None => 0,
            }) * e.1,
            g.1 + e.1,
            g.2,
        )
    } else if f.spec_is_max() {
        (0, g.1 + e.1, spec_ord_step_max(g.2, e.0))
    } else if f.spec_is_min() {
        (0, g.1 + e.1, spec_ord_step_min(g.2, e.0))
    } else {
        (0, g.1 + e.1, g.2)
    }
}

/// The held order statistic after one more value, for a max.
pub open spec fn spec_ord_step_max(o: Option<Value>, v: Value) -> Option<Value> {
    match o {
        Some(c) => Some(crate::value::spec_value_max(c, v)),
        None => Some(v),
    }
}

/// The held order statistic after one more value, for a min.
pub open spec fn spec_ord_step_min(o: Option<Value>, v: Value) -> Option<Value> {
    match o {
        Some(c) => Some(crate::value::spec_value_min(c, v)),
        None => Some(v),
    }
}

/// Whether an element may enter an insert-only batch for `f` on an
/// accumulator shaped like `a`: a positive diff and a value of the type
/// the accumulator folds.
pub open spec fn spec_insert_elem_ok(a: Accum, f: AggregateFunc, e: (Value, i64)) -> bool {
    e.1 > 0 && match a {
        Accum::Bool(_) => e.0 is Boolean,
        Accum::SimpleNumber(_) => crate::accum::spec_value_widen(e.0) is Some,
        Accum::OrdValue(x) => x.val matches Some(c) ==> e.0.spec_data_type()
            == c.spec_data_type(),
        Accum::Float(_) => false,
    }
}

/// Whether `f` is one of the order-free accumulable functions this law
/// covers, on the accumulator it selects.
pub open spec fn spec_orderfree_case(a: Accum, f: AggregateFunc) -> bool {
    (a is Bool && f.spec_is_bool_fn()) || (a is SimpleNumber && f.spec_is_number_sum_fn()) || (
    a is OrdValue && f == AggregateFunc::Count)
}

/// Under the insert-only hypotheses no update fails, and the machine-level
/// fold mirrors the widened fold step for step.
proof fn lemma_widened_agrees(a: Accum, f: AggregateFunc, s: Seq<(Value, i64)>)
    requires
        spec_orderfree_case(a, f),
        forall|j: int| 0 <= j < s.len() ==> spec_insert_elem_ok(a, f, #[trigger] s[j]),
        crate::accum::spec_accum_batch_fits(a, f, s),
    ensures
        spec_accum_update_seq(a, f, s).1 is None,
        spec_widened_state(spec_accum_update_seq(a, f, s).0) == spec_fold_ops(
            spec_widened_state(a),
            s,
            |g: (int, int, Option<Value>), e: (Value, i64)| spec_widened_step(f, g, e),
        ),
        spec_orderfree_case(spec_accum_update_seq(a, f, s).0, f),
        spec_accum_update_seq(a, f, s).0 matches Accum::OrdValue(y) ==> y.val == (match a {
            Accum::OrdValue(x) => x.val,
            _ => None,
        }),
    decreases s.len(),
{
    if s.len() > 0 {
        let e = s[0];
        let step = spec_accum_update(a, f, e.0, e.1 as int);
        assert(step is Ok);
        let a2 = step->Ok_0;
        assert(spec_orderfree_case(a2, f));
        assert forall|j: int|
            0 <= j < s.drop_first().len() implies spec_insert_elem_ok(
            a2,
            f,
            #[trigger] s.drop_first()[j],
        ) by {
            assert(s.drop_first()[j] == s[j + 1]);
        }
        lemma_widened_agrees(a2, f, s.drop_first());
        assert(spec_widened_state(a2) == spec_widened_step(f, spec_widened_state(a), e));
    }
}

/// Accumulator commutativity at the output for the order-free functions:
/// two insert-only batches with the same elements drive the accumulator to
/// the same state, and so to the same readout, whatever their order.
///
/// Min and max fold through the value order and are covered by the
/// monotonicity rejection instead; a batch holding two distinct values
/// that compare equal (such as the two float zeros) has no canonical
/// order statistic, so they stay outside this law.
pub proof fn lemma_accum_insert_only_commutes(
    a: Accum,
    f: AggregateFunc,
    s1: Seq<(Value, i64)>,
    s2: Seq<(Value, i64)>,
)
    requires
        spec_orderfree_case(a, f),
        s1.to_multiset() == s2.to_multiset(),
        forall|j: int| 0 <= j < s1.len() ==> spec_insert_elem_ok(a, f, #[trigger] s1[j]),
        crate::accum::spec_accum_batch_fits(a, f, s1),
        crate::accum::spec_accum_batch_fits(a, f, s2),
    ensures
        spec_accum_update_seq(a, f, s1).1 is None,
        spec_accum_update_seq(a, f, s2).1 is None,
        spec_accum_update_seq(a, f, s1).0 == spec_accum_update_seq(a, f, s2).0,
{
    s1.to_multiset_ensures();
    s2.to_multiset_ensures();
    assert forall|j: int|
        0 <= j < s2.len() implies spec_insert_elem_ok(a, f, #[trigger] s2[j]) by {
        assert(s2.contains(s2[j]));
        assert(s2.to_multiset().count(s2[j]) > 0);
        assert(s1.contains(s2[j]));
        let x = choose|x: int| 0 <= x < s1.len() && s1[x] == s2[j];
        assert(spec_insert_elem_ok(a, f, s1[x]));
    }
    lemma_widened_agrees(a, f, s1);
    lemma_widened_agrees(a, f, s2);
    let op = |g: (int, int, Option<Value>), e: (Value, i64)| spec_widened_step(f, g, e);
    let inv = |g: (int, int, Option<Value>)| true;
    let p = |e: (Value, i64)| spec_insert_elem_ok(a, f, e);
    lemma_fold_ops_perm(spec_widened_state(a), s1, s2, op, inv, p);
    let r1 = spec_accum_update_seq(a, f, s1).0;
    let r2 = spec_accum_update_seq(a, f, s2).0;
    assert(spec_widened_state(r1) == spec_widened_state(r2));
    match (r1, r2) {
        (Accum::Bool(b1), Accum::Bool(b2)) => {
            assert(b1.trues == b2.trues && b1.falses == b2.falses);
        },
        (Accum::SimpleNumber(x1), Accum::SimpleNumber(x2)) => {
            assert(x1.accum == x2.accum && x1.non_nulls == x2.non_nulls);
        },
        (Accum::OrdValue(y1), Accum::OrdValue(y2)) => {
            assert(y1.non_nulls == y2.non_nulls);
            assert(y1.val == y2.val);
        },
        _ => {
            assert(false);
        },
    }
}

/// A maximum is one of its arguments and at or above both.
proof fn lemma_max_bounds(a: Value, b: Value)
    ensures
        crate::value::spec_value_max(a, b) == a || crate::value::spec_value_max(a, b) == b,
        crate::value::spec_value_cmp(a, crate::value::spec_value_max(a, b)) != crate::value::ValOrd::Gt,
        crate::value::spec_value_cmp(b, crate::value::spec_value_max(a, b)) != crate::value::ValOrd::Gt,
{
    crate::value::lemma_value_cmp_refl(a);
    crate::value::lemma_value_cmp_refl(b);
    crate::value::lemma_value_cmp_flip(a, b);
}

/// A minimum is one of its arguments and at or below both.
proof fn lemma_min_bounds(a: Value, b: Value)
    ensures
        crate::value::spec_value_min(a, b) == a || crate::value::spec_value_min(a, b) == b,
        crate::value::spec_value_cmp(crate::value::spec_value_min(a, b), a) != crate::value::ValOrd::Gt,
        crate::value::spec_value_cmp(crate::value::spec_value_min(a, b), b) != crate::value::ValOrd::Gt,
{
    crate::value::lemma_value_cmp_refl(a);
    crate::value::lemma_value_cmp_refl(b);
    crate::value::lemma_value_cmp_flip(a, b);
}

/// Folding a maximum over two values lands on the same statistic in either
/// order, as long as distinct values never compare equal.
proof fn lemma_max_step_exchange(o: Option<Value>, x: Value, y: Value)
    requires
        crate::value::spec_value_cmp(x, y) == crate::value::ValOrd::Eq ==> x == y,
        o matches Some(c) ==> (crate::value::spec_value_cmp(c, x) == crate::value::ValOrd::Eq
            ==> c == x) && (crate::value::spec_value_cmp(c, y) == crate::value::ValOrd::Eq
            ==> c == y),
    ensures
        spec_ord_step_max(spec_ord_step_max(o, x), y) == spec_ord_step_max(
            spec_ord_step_max(o, y),
            x,
        ),
{
    crate::value::lemma_value_cmp_flip(x, y);
    match o {
        None => {},
        Some(c) => {
            let m1 = crate::value::spec_value_max(crate::value::spec_value_max(c, x), y);
            let m2 = crate::value::spec_value_max(crate::value::spec_value_max(c, y), x);
            lemma_max_bounds(c, x);
            lemma_max_bounds(crate::value::spec_value_max(c, x), y);
            lemma_max_bounds(c, y);
            lemma_max_bounds(crate::value::spec_value_max(c, y), x);
            // each of c, x, y sits at or below both folded maxima
            crate::value::lemma_value_cmp_trans(c, crate::value::spec_value_max(c, x), m1);
            crate::value::lemma_value_cmp_trans(x, crate::value::spec_value_max(c, x), m1);
            crate::value::lemma_value_cmp_trans(c, crate::value::spec_value_max(c, y), m2);
            crate::value::lemma_value_cmp_trans(y, crate::value::spec_value_max(c, y), m2);
            // so each maximum sits at or below the other
            assert(crate::value::spec_value_cmp(m1, m2) != crate::value::ValOrd::Gt);
            assert(crate::value::spec_value_cmp(m2, m1) != crate::value::ValOrd::Gt);
            crate::value::lemma_value_cmp_flip(m1, m2);
            assert(crate::value::spec_value_cmp(m1, m2) == crate::value::ValOrd::Eq);
            crate::value::lemma_value_cmp_flip(c, x);
            crate::value::lemma_value_cmp_flip(c, y);
            assert(m1 == m2);
        },
    }
}

/// Folding a minimum over two values lands on the same statistic in either
/// order, as long as distinct values never compare equal.
proof fn lemma_min_step_exchange(o: Option<Value>, x: Value, y: Value)
    requires
        crate::value::spec_value_cmp(x, y) == crate::value::ValOrd::Eq ==> x == y,
        o matches Some(c) ==> (crate::value::spec_value_cmp(c, x) == crate::value::ValOrd::Eq
            ==> c == x) && (crate::value::spec_value_cmp(c, y) == crate::value::ValOrd::Eq
            ==> c == y),
    ensures
        spec_ord_step_min(spec_ord_step_min(o, x), y) == spec_ord_step_min(
            spec_ord_step_min(o, y),
            x,
        ),
{
    crate::value::lemma_value_cmp_flip(x, y);
    match o {
        None => {},
        Some(c) => {
            let m1 = crate::value::spec_value_min(crate::value::spec_value_min(c, x), y);
            let m2 = crate::value::spec_value_min(crate::value::spec_value_min(c, y), x);
            lemma_min_bounds(c, x);
            lemma_min_bounds(crate::value::spec_value_min(c, x), y);
            lemma_min_bounds(c, y);
            lemma_min_bounds(crate::value::spec_value_min(c, y), x);
            crate::value::lemma_value_cmp_trans(m1, crate::value::spec_value_min(c, x), c);
            crate::value::lemma_value_cmp_trans(m1, crate::value::spec_value_min(c, x), x);
            crate::value::lemma_value_cmp_trans(m2, crate::value::spec_value_min(c, y), c);
            crate::value::lemma_value_cmp_trans(m2, crate::value::spec_value_min(c, y), y);
            assert(crate::value::spec_value_cmp(m1, m2) != crate::value::ValOrd::Gt);
            assert(crate::value::spec_value_cmp(m2, m1) != crate::value::ValOrd::Gt);
            crate::value::lemma_value_cmp_flip(m1, m2);
            assert(crate::value::spec_value_cmp(m1, m2) == crate::value::ValOrd::Eq);
            crate::value::lemma_value_cmp_flip(c, x);
            crate::value::lemma_value_cmp_flip(c, y);
            assert(m1 == m2);
        },
    }
}

/// Whether `f` is a min or max over an ordered-value accumulator (the
/// boolean min/max live in the boolean accumulator instead).
pub open spec fn spec_minmax_case(a: Accum, f: AggregateFunc) -> bool {
    a is OrdValue && (f.spec_is_max() || f.spec_is_min()) && !f.spec_is_bool_fn()
}

/// Whether `v` takes part in a batch: it is one of the batch's values or
/// the value the accumulator already holds.
pub open spec fn spec_in_play(a: Accum, s: Seq<(Value, i64)>, v: Value) -> bool {
    (exists|j: int| 0 <= j < s.len() && (#[trigger] s[j]).0 == v) || (a matches Accum::OrdValue(
        x,
    ) && x.val == Some(v))
}

/// Under the insert-only hypotheses a min/max batch never fails, and the
/// machine-level fold mirrors the widened fold; the held value stays one
/// of the values in play.
proof fn lemma_widened_agrees_minmax(
    a: Accum,
    f: AggregateFunc,
    dt: crate::value::ConcreteDataType,
    orig: Accum,
    all: Seq<(Value, i64)>,
    s: Seq<(Value, i64)>,
)
    requires
        spec_minmax_case(a, f),
        a matches Accum::OrdValue(x) ==> match x.val {
            Some(c) => c.spec_data_type() == dt && spec_in_play(orig, all, c),
            None => true,
        },
        forall|j: int|
            0 <= j < s.len() ==> (#[trigger] s[j]).1 > 0 && s[j].0.spec_data_type() == dt
                && spec_in_play(orig, all, s[j].0),
        crate::accum::spec_accum_batch_fits(a, f, s),
    ensures
        spec_accum_update_seq(a, f, s).1 is None,
        spec_widened_state(spec_accum_update_seq(a, f, s).0) == spec_fold_ops(
            spec_widened_state(a),
            s,
            |g: (int, int, Option<Value>), e: (Value, i64)| spec_widened_step(f, g, e),
        ),
        spec_minmax_case(spec_accum_update_seq(a, f, s).0, f),
        spec_accum_update_seq(a, f, s).0 matches Accum::OrdValue(y) ==> match y.val {
            Some(c) => c.spec_data_type() == dt && spec_in_play(orig, all, c),
            None => true,
        },
    decreases s.len(),
{
    if s.len() > 0 {
        let e = s[0];
        let step = spec_accum_update(a, f, e.0, e.1 as int);
        assert(step is Ok);
        let a2 = step->Ok_0;
        assert(a2 matches Accum::OrdValue(y) ==> match y.val {
            Some(c) => c.spec_data_type() == dt && spec_in_play(orig, all, c),
            None => true,
        }) by {
            match (a, a2) {
                (Accum::OrdValue(x), Accum::OrdValue(y)) => {
                    match x.val {
                        Some(c) => {
                            lemma_max_bounds(c, e.0);
                            lemma_min_bounds(c, e.0);
                        },
                        None => {},
                    }
                },
                _ => {},
            }
        }
        assert forall|j: int|
            0 <= j < s.drop_first().len() implies (#[trigger] s.drop_first()[j]).1 > 0
                && s.drop_first()[j].0.spec_data_type() == dt && spec_in_play(
                orig,
                all,
                s.drop_first()[j].0,
            ) by {
            assert(s.drop_first()[j] == s[j + 1]);
        }
        lemma_widened_agrees_minmax(a2, f, dt, orig, all, s.drop_first());
        assert(spec_widened_state(a2) == spec_widened_step(f, spec_widened_state(a), e));
    }
}

/// Accumulator commutativity at the output for min and max: two
/// insert-only batches of same-typed values with the same elements drive
/// the order statistic to the same value, whatever their order — as long
/// as no two distinct values in play compare equal (the two float zeros
/// are the canonical offenders, and are excluded).
pub proof fn lemma_accum_minmax_commutes(
    a: Accum,
    f: AggregateFunc,
    dt: crate::value::ConcreteDataType,
    s1: Seq<(Value, i64)>,
    s2: Seq<(Value, i64)>,
)
    requires
        spec_minmax_case(a, f),
        a matches Accum::OrdValue(x) ==> match x.val {
            Some(c) => c.spec_data_type() == dt,
            None => true,
        },
        s1.to_multiset() == s2.to_multiset(),
        forall|j: int|
            0 <= j < s1.len() ==> (#[trigger] s1[j]).1 > 0 && s1[j].0.spec_data_type() == dt,
        forall|v: Value, w: Value|
            spec_in_play(a, s1, v) && spec_in_play(a, s1, w) && crate::value::spec_value_cmp(
                v,
                w,
            ) == crate::value::ValOrd::Eq ==> v == w,
        crate::accum::spec_accum_batch_fits(a, f, s1),
        crate::accum::spec_accum_batch_fits(a, f, s2),
    ensures
        spec_accum_update_seq(a, f, s1).1 is None,
        spec_accum_update_seq(a, f, s2).1 is None,
        spec_accum_update_seq(a, f, s1).0 == spec_accum_update_seq(a, f, s2).0,
{
    s1.to_multiset_ensures();
    s2.to_multiset_ensures();
    assert forall|j: int|
        0 <= j < s2.len() implies (#[trigger] s2[j]).1 > 0 && s2[j].0.spec_data_type() == dt
            && spec_in_play(a, s1, s2[j].0) by {
        assert(s2.contains(s2[j]));
        assert(s2.to_multiset().count(s2[j]) > 0);
        assert(s1.contains(s2[j]));
        let x = choose|x: int| 0 <= x < s1.len() && s1[x] == s2[j];
        assert(s1[x].0 == s2[j].0);
    }
    assert forall|j: int|
        0 <= j < s1.len() implies (#[trigger] s1[j]).1 > 0 && s1[j].0.spec_data_type() == dt
            && spec_in_play(a, s1, s1[j].0) by {}
    lemma_widened_agrees_minmax(a, f, dt, a, s1, s1);
    lemma_widened_agrees_minmax(a, f, dt, a, s1, s2);
    let op = |g: (int, int, Option<Value>), e: (Value, i64)| spec_widened_step(f, g, e);
    let inv = |g: (int, int, Option<Value>)| match g.2 {
        Some(c) => spec_in_play(a, s1, c),
        None => true,
    };
    let p = |e: (Value, i64)| e.1 > 0 && e.0.spec_data_type() == dt && spec_in_play(a, s1, e.0);
    assert(inv(spec_widened_state(a)));
    assert forall|b: (int, int, Option<Value>), x: (Value, i64)|
        inv(b) && p(x) implies inv(#[trigger] op(b, x)) by {
        match b.2 {
            Some(c) => {
                lemma_max_bounds(c, x.0);
                lemma_min_bounds(c, x.0);
            },
            None => {},
        }
    }
    assert forall|b: (int, int, Option<Value>), x: (Value, i64), y: (Value, i64)|
        #![trigger op(op(b, x), y)]
        inv(b) && p(x) && p(y) implies op(op(b, x), y) == op(op(b, y), x) by {
        if f.spec_is_max() {
            lemma_max_step_exchange(b.2, x.0, y.0);
        } else {
            lemma_min_step_exchange(b.2, x.0, y.0);
        }
    }
    lemma_fold_ops_perm(spec_widened_state(a), s1, s2, op, inv, p);
    let r1 = spec_accum_update_seq(a, f, s1).0;
    let r2 = spec_accum_update_seq(a, f, s2).0;
    assert(spec_widened_state(r1) == spec_widened_state(r2));
    match (r1, r2) {
        (Accum::OrdValue(y1), Accum::OrdValue(y2)) => {
            assert(y1.non_nulls == y2.non_nulls);
            assert(y1.val == y2.val);
        },
        _ => {
            assert(false);
        },
    }
}

} // verus!
