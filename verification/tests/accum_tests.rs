use flow_core::accum::{Accum, AggregateFunc, Bool, Float, OrdValue, SimpleNumber};
use flow_core::expr::EvalError;
use flow_core::value::{ConcreteDataType, Decimal128, Value};

#[test]
fn test_accum() {
    let testcases: Vec<(AggregateFunc, Vec<(Value, i64)>, (Value, Vec<Value>))> = vec![
        (
            AggregateFunc::SumInt32,
            vec![(Value::Int32(1), 1)],
            (
                Value::Int64(1),
                vec![Value::Decimal128(Decimal128::new(1, 38, 0)), Value::Int64(1)],
            ),
        ),
        (
            AggregateFunc::MaxInt32,
            vec![(Value::Int32(1), 1), (Value::Int32(2), 1)],
            (Value::Int32(2), vec![Value::Int32(2), Value::Int64(2)]),
        ),
        (
            AggregateFunc::MinInt32,
            vec![(Value::Int32(2), 1), (Value::Int32(1), 1)],
            (Value::Int32(1), vec![Value::Int32(1), Value::Int64(2)]),
        ),
        (
            AggregateFunc::MaxFloat32,
            vec![
                (Value::Float32(1.0f32.to_bits()), 1),
                (Value::Float32(2.0f32.to_bits()), 1),
            ],
            (
                Value::Float32(2.0f32.to_bits()),
                vec![Value::Float32(2.0f32.to_bits()), Value::Int64(2)],
            ),
        ),
        (
            AggregateFunc::MaxDateTime,
            vec![(Value::DateTime(0), 1), (Value::DateTime(1), 1)],
            (Value::DateTime(1), vec![Value::DateTime(1), Value::Int64(2)]),
        ),
        (
            AggregateFunc::Count,
            vec![(Value::Int32(1), 1), (Value::Int32(2), 1)],
            (Value::Null, vec![Value::Null, Value::Int64(2)]),
        ),
        (
            AggregateFunc::Any,
            vec![
                (Value::Boolean(false), 1),
                (Value::Boolean(false), 1),
                (Value::Boolean(true), 1),
            ],
            (Value::Boolean(true), vec![Value::Int64(1), Value::Int64(2)]),
        ),
        (
            AggregateFunc::All,
            vec![
                (Value::Boolean(false), 1),
                (Value::Boolean(false), 1),
                (Value::Boolean(true), 1),
            ],
            (Value::Boolean(false), vec![Value::Int64(1), Value::Int64(2)]),
        ),
        (
            AggregateFunc::MaxBool,
            vec![
                (Value::Boolean(false), 1),
                (Value::Boolean(false), 1),
                (Value::Boolean(true), 1),
            ],
            (Value::Boolean(true), vec![Value::Int64(1), Value::Int64(2)]),
        ),
        (
            AggregateFunc::MinBool,
            vec![
                (Value::Boolean(false), 1),
                (Value::Boolean(false), 1),
                (Value::Boolean(true), 1),
            ],
            (Value::Boolean(false), vec![Value::Int64(1), Value::Int64(2)]),
        ),
    ];

    for (aggr_fn, input, (eval_res, state)) in testcases {
        let mut acc = Accum::new_accum(&aggr_fn).unwrap();
        acc.update_batch(&aggr_fn, input).unwrap();
        let row = acc.into_state();
        let acc = Accum::try_into_accum(&aggr_fn, row).unwrap();

        assert_eq!(acc.eval(&aggr_fn).unwrap(), eval_res);
        assert_eq!(acc.into_state(), state);
    }
}

#[test]
fn sum_float64_state_round_trip() {
    // the float accumulator state row: [sum bits, +inf, -inf, nan, non-null]
    let state = vec![
        Value::Float64(1.0f64.to_bits()),
        Value::Int64(0),
        Value::Int64(0),
        Value::Int64(0),
        Value::Int64(1),
    ];
    let acc = Accum::try_into_accum(&AggregateFunc::SumFloat64, state.clone()).unwrap();
    assert_eq!(acc.eval(&AggregateFunc::SumFloat64).unwrap(), Value::Float64(1.0f64.to_bits()));
    assert_eq!(acc.into_state(), state);
}

#[test]
fn float_zero_on_reconstruction() {
    // a residue with no non-null values left is forced back to exactly 0.0
    let state = vec![
        Value::Float64(0.25f64.to_bits()),
        Value::Int64(0),
        Value::Int64(0),
        Value::Int64(0),
        Value::Int64(0),
    ];
    let acc = Accum::try_into_accum(&AggregateFunc::SumFloat64, state).unwrap();
    assert_eq!(
        acc.eval(&AggregateFunc::SumFloat64).unwrap(),
        Value::Float64(0.0f64.to_bits())
    );
}

#[test]
fn float_update_counts_special_values() {
    let mut acc = Accum::new_accum(&AggregateFunc::SumFloat64).unwrap();
    acc.update(&AggregateFunc::SumFloat64, Value::Float64(f64::NAN.to_bits()), 1).unwrap();
    acc.update(&AggregateFunc::SumFloat64, Value::Float64(f64::INFINITY.to_bits()), 1).unwrap();
    acc.update(
        &AggregateFunc::SumFloat64,
        Value::Float64(f64::NEG_INFINITY.to_bits()),
        1,
    )
    .unwrap();
    let state = acc.into_state();
    assert_eq!(
        state,
        vec![
            Value::Float64(0.0f64.to_bits()),
            Value::Int64(1),
            Value::Int64(1),
            Value::Int64(1),
            Value::Int64(3),
        ]
    );
}

#[test]
fn insert_only_updates_commute() {
    let f = AggregateFunc::SumInt64;
    let one = vec![
        (Value::Int64(3), 1),
        (Value::Int64(-2), 2),
        (Value::Int64(40), 1),
    ];
    let other = vec![
        (Value::Int64(40), 1),
        (Value::Int64(3), 1),
        (Value::Int64(-2), 2),
    ];
    let mut a = Accum::new_accum(&f).unwrap();
    a.update_batch(&f, one).unwrap();
    let mut b = Accum::new_accum(&f).unwrap();
    b.update_batch(&f, other).unwrap();
    assert_eq!(a.eval(&f).unwrap(), b.eval(&f).unwrap());
    assert_eq!(a.into_state(), b.into_state());
}

#[test]
fn bool_rejects_non_boolean_value() {
    let mut acc = Bool { trues: 0, falses: 0 };
    let err = acc.update(&AggregateFunc::Any, Value::Int32(1), 1).unwrap_err();
    assert_eq!(
        err,
        EvalError::TypeMismatch {
            expected: ConcreteDataType::Boolean,
            actual: ConcreteDataType::Int32,
        }
    );
}

#[test]
fn bool_rejects_foreign_function() {
    let mut acc = Bool { trues: 0, falses: 0 };
    let err = acc.update(&AggregateFunc::SumInt32, Value::Boolean(true), 1).unwrap_err();
    assert!(matches!(err, EvalError::Internal { .. }));
}

#[test]
fn min_max_reject_retractions() {
    let mut acc = OrdValue { val: None, non_nulls: 0 };
    let err = acc.update(&AggregateFunc::MaxInt32, Value::Int32(5), -1).unwrap_err();
    assert!(matches!(err, EvalError::Internal { .. }));
    // Count still accepts a retraction
    let mut cnt = OrdValue { val: None, non_nulls: 0 };
    cnt.update(&AggregateFunc::Count, Value::Int32(5), -1).unwrap();
    assert_eq!(cnt.into_state(), vec![Value::Null, Value::Int64(-1)]);
}

#[test]
fn bad_state_arity_is_reported() {
    let err = Bool::try_from(vec![Value::Int64(1)]).unwrap_err();
    match err {
        EvalError::Internal { reason } => {
            assert_eq!(reason, "Bool Accumulator state should have 2 values")
        }
        other => panic!("unexpected error {other:?}"),
    }
    let err = SimpleNumber::try_from(vec![Value::Int64(1)]).unwrap_err();
    assert!(matches!(err, EvalError::Internal { .. }));
    let err = Float::try_from(vec![Value::Int64(1)]).unwrap_err();
    assert!(matches!(err, EvalError::Internal { .. }));
    let err = OrdValue::try_from(vec![Value::Int64(1)]).unwrap_err();
    assert!(matches!(err, EvalError::Internal { .. }));
}

#[test]
fn bad_state_value_is_reported() {
    let err = Bool::try_from(vec![Value::Boolean(true), Value::Int64(0)]).unwrap_err();
    assert!(matches!(err, EvalError::TryFromValue { .. }));
}

#[test]
fn ord_value_rejects_mixed_types() {
    let mut acc = OrdValue { val: None, non_nulls: 0 };
    acc.update(&AggregateFunc::MaxInt32, Value::Int32(1), 1).unwrap();
    let err = acc.update(&AggregateFunc::MaxInt32, Value::Int64(2), 1).unwrap_err();
    assert_eq!(
        err,
        EvalError::TypeMismatch {
            expected: ConcreteDataType::Int32,
            actual: ConcreteDataType::Int64,
        }
    );
}

#[test]
fn float_ordering_follows_ordered_float() {
    // NaN is greatest and equal to itself
    let f = AggregateFunc::MaxFloat64;
    let mut acc = Accum::new_accum(&f).unwrap();
    acc.update(&f, Value::Float64(1.0f64.to_bits()), 1).unwrap();
    acc.update(&f, Value::Float64(f64::NAN.to_bits()), 1).unwrap();
    acc.update(&f, Value::Float64(2.0f64.to_bits()), 1).unwrap();
    let v = acc.eval(&f).unwrap();
    match v {
        Value::Float64(bits) => assert!(f64::from_bits(bits).is_nan()),
        other => panic!("unexpected value {other:?}"),
    }
}

#[test]
fn max_updates_commute() {
    let f = AggregateFunc::MaxInt64;
    let one = vec![
        (Value::Int64(3), 1),
        (Value::Int64(40), 1),
        (Value::Int64(-2), 1),
    ];
    let other = vec![
        (Value::Int64(-2), 1),
        (Value::Int64(3), 1),
        (Value::Int64(40), 1),
    ];
    let mut a = Accum::new_accum(&f).unwrap();
    a.update_batch(&f, one).unwrap();
    let mut b = Accum::new_accum(&f).unwrap();
    b.update_batch(&f, other).unwrap();
    assert_eq!(a.eval(&f).unwrap(), Value::Int64(40));
    assert_eq!(a.eval(&f).unwrap(), b.eval(&f).unwrap());
    assert_eq!(a.into_state(), b.into_state());
}
