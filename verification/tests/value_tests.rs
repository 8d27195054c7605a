use flow_core::repr::{value_to_internal_ts, Row};
use flow_core::value::{value_cmp, value_max, value_min, ValOrd, Value};

#[test]
fn float_bits_order_like_ordered_floats() {
    let nan = Value::Float64(f64::NAN.to_bits());
    let one = Value::Float64(1.0f64.to_bits());
    let neg = Value::Float64((-3.5f64).to_bits());
    let pz = Value::Float64(0.0f64.to_bits());
    let nz = Value::Float64((-0.0f64).to_bits());
    assert_eq!(value_cmp(&nan, &one), ValOrd::Gt);
    assert_eq!(value_cmp(&one, &nan), ValOrd::Lt);
    assert_eq!(value_cmp(&nan, &nan), ValOrd::Eq);
    assert_eq!(value_cmp(&neg, &one), ValOrd::Lt);
    assert_eq!(value_cmp(&pz, &nz), ValOrd::Eq);
    assert_eq!(value_cmp(&one, &one), ValOrd::Eq);
}

#[test]
fn max_and_min_follow_std_tie_breaking() {
    let a = Value::Int32(5);
    let b = Value::Int32(7);
    assert_eq!(value_max(a, b), b);
    assert_eq!(value_min(a, b), a);
    // on a tie max returns its second argument, min its first
    let pz = Value::Float32(0.0f32.to_bits());
    let nz = Value::Float32((-0.0f32).to_bits());
    assert_eq!(value_max(pz, nz), nz);
    assert_eq!(value_min(pz, nz), pz);
}

#[test]
fn internal_timestamps_read_from_integral_values() {
    assert_eq!(value_to_internal_ts(Value::Int64(42)), Ok(42));
    assert_eq!(value_to_internal_ts(Value::DateTime(7)), Ok(7));
    assert!(value_to_internal_ts(Value::Boolean(true)).is_err());
}

#[test]
fn rows_compare_by_content() {
    let a = Row::new(vec![Value::Int32(1), Value::Boolean(true)]);
    let b = Row::new(vec![Value::Int32(1), Value::Boolean(true)]);
    let c = Row::new(vec![Value::Int32(2)]);
    assert!(a.eq_row(&b));
    assert!(!a.eq_row(&c));
    assert!(a.duplicate().eq_row(&a));
    assert_eq!(a.len(), 2);
    assert_eq!(a.get(0), Some(&Value::Int32(1)));
    assert_eq!(a.get(2), None);
}
