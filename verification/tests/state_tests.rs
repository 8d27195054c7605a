use flow_core::expr::{EvalError, ScalarExpr};
use flow_core::repr::Row;
use flow_core::state::{ExpiringKeyValueState, ScheduledAction, TemporalFilterState};
use flow_core::value::Value;

#[test]
fn test_temporal_filter_state() {
    let mut state = TemporalFilterState::new();
    state.append_delta_row(vec![(Row::new(vec![Value::Int32(1)]), 1, 1)]);
    state.append_delta_row(vec![(Row::new(vec![Value::Int32(1)]), 2, 1)]);
    state.append_delta_row(vec![(Row::new(vec![Value::Int32(1)]), 3, -1)]);

    assert_eq!(
        state.trunc_until_inclusive(2),
        vec![
            (Row::new(vec![Value::Int32(1)]), 1, 1),
            (Row::new(vec![Value::Int32(1)]), 2, 1)
        ]
    );
}

#[test]
fn temporal_filter_retains_later_events() {
    let mut state = TemporalFilterState::new();
    state.append_delta_row(vec![
        (Row::new(vec![Value::Int32(1)]), 1, 1),
        (Row::new(vec![Value::Int32(1)]), 2, 1),
        (Row::new(vec![Value::Int32(1)]), 3, -1),
    ]);
    let _ = state.trunc_until_inclusive(2);
    assert_eq!(state.schd_at(0), Some(3));
    assert_eq!(
        state.trunc_until_inclusive(3),
        vec![(Row::new(vec![Value::Int32(1)]), 3, -1)]
    );
    assert_eq!(state.schd_at(0), None);
}

#[test]
fn temporal_filter_coalesces_to_zero() {
    let mut state = TemporalFilterState::new();
    state.append_delta_row(vec![
        (Row::new(vec![Value::Int32(7)]), 5, 1),
        (Row::new(vec![Value::Int32(7)]), 5, -1),
    ]);
    // the contributions cancel; the bucket stays but holds nothing
    assert_eq!(state.trunc_until_inclusive(5), vec![]);
}

#[test]
fn temporal_filter_ordering_composes() {
    let rows = || {
        vec![
            (Row::new(vec![Value::Int32(1)]), 1, 1),
            (Row::new(vec![Value::Int32(2)]), 2, 1),
            (Row::new(vec![Value::Int32(3)]), 3, 1),
            (Row::new(vec![Value::Int32(4)]), 4, 1),
        ]
    };
    let mut split = TemporalFilterState::new();
    split.append_delta_row(rows());
    let mut whole = TemporalFilterState::new();
    whole.append_delta_row(rows());

    let mut seen = split.trunc_until_inclusive(2);
    seen.extend(split.trunc_until_inclusive(4));
    assert_eq!(seen, whole.trunc_until_inclusive(4));
}

#[test]
fn test_expiring_state() {
    // a state with 5s expiration that reads column 0 as the event timestamp
    let mut s = ExpiringKeyValueState::new(Some(5000), ScalarExpr::Column(0));

    // test insert
    assert!(matches!(
        s.insert(0, Row::new(vec![Value::Int64(0)]), Row::new(vec![])),
        Ok(None)
    ));
    assert!(matches!(
        s.insert(5000, Row::new(vec![Value::Int64(0)]), Row::new(vec![])),
        Ok(Some(_))
    ));

    // test expired insert
    assert!(matches!(
        s.insert(5001, Row::new(vec![Value::Int64(0)]), Row::new(vec![])),
        Err(EvalError::LateDataDiscarded { .. })
    ));

    // test trunc
    assert_eq!(s.trunc_expired(5001), 1);

    // test normal remove
    assert!(matches!(
        s.insert(5000, Row::new(vec![Value::Int64(5000)]), Row::new(vec![])),
        Ok(None)
    ));

    assert!(matches!(
        s.remove(5001, &Row::new(vec![Value::Int64(5000)])),
        Ok(Some(_))
    ));

    // test insert -> expired -> failed remove
    assert!(matches!(
        s.insert(5000, Row::new(vec![Value::Int64(5000)]), Row::new(vec![])),
        Ok(None)
    ));
    assert!(matches!(
        s.remove(10_001, &Row::new(vec![Value::Int64(5000)])),
        Err(EvalError::LateDataDiscarded { .. })
    ));

    let mut s = ExpiringKeyValueState::new(Some(5000), ScalarExpr::Column(0));

    // test insert and truncate
    assert!(matches!(
        s.insert(0, Row::new(vec![Value::Int64(0)]), Row::new(vec![])),
        Ok(None)
    ));
    assert!(matches!(
        s.insert(0, Row::new(vec![Value::Int64(5000)]), Row::new(vec![])),
        Ok(None)
    ));
    assert_eq!(s.trunc_expired(1), 0);
    assert_eq!(s.trunc_expired(5000), 0);
    assert_eq!(s.trunc_expired(5001), 1);
    assert_eq!(s.trunc_expired(10_001), 1);
}

#[test]
fn expiring_state_gen_diff_reports_transitions() {
    let mut s = ExpiringKeyValueState::new(Some(5000), ScalarExpr::Column(0));
    let k = Row::new(vec![Value::Int64(10)]);
    let v = Row::new(vec![Value::Int32(1)]);
    s.insert(0, k, v).unwrap();
    let diffs = s.gen_diff(7);
    assert_eq!(diffs.len(), 1);
    let ((dk, dv), t, d) = &diffs[0];
    assert_eq!(dk, &Row::new(vec![Value::Int64(10)]));
    assert_eq!(dv, &Row::new(vec![Value::Int32(1)]));
    assert_eq!((*t, *d), (7, 1));
    // the buffer is drained: a second generation reports nothing
    assert_eq!(s.gen_diff(8), vec![]);
}

#[test]
fn expiring_state_without_ttl_never_expires() {
    let mut s = ExpiringKeyValueState::new(None, ScalarExpr::Column(0));
    s.insert(0, Row::new(vec![Value::Int64(0)]), Row::new(vec![])).unwrap();
    assert_eq!(s.trunc_expired(1_000_000), 0);
    assert_eq!(s.schd_at(0), None);
}

#[test]
fn expiring_state_schedules_earliest_expiry() {
    let mut s = ExpiringKeyValueState::new(Some(5000), ScalarExpr::Column(0));
    s.insert(0, Row::new(vec![Value::Int64(30)]), Row::new(vec![])).unwrap();
    s.insert(0, Row::new(vec![Value::Int64(20)]), Row::new(vec![])).unwrap();
    assert_eq!(s.schd_at(0), Some(5020));
}

#[test]
fn expiry_is_monotone_in_time() {
    let mut early = ExpiringKeyValueState::new(Some(100), ScalarExpr::Column(0));
    let mut late = ExpiringKeyValueState::new(Some(100), ScalarExpr::Column(0));
    for ts in [0i64, 50, 90, 120] {
        early.insert(ts, Row::new(vec![Value::Int64(ts)]), Row::new(vec![])).unwrap();
        late.insert(ts, Row::new(vec![Value::Int64(ts)]), Row::new(vec![])).unwrap();
    }
    let a = early.trunc_expired(160);
    let b = late.trunc_expired(240);
    assert!(a <= b);
    assert_eq!((a, b), (2, 4));
}

#[test]
fn source_release_concatenates_in_order() {
    let buffered = vec![
        (Row::new(vec![Value::Int32(1)]), 1, 1),
        (Row::new(vec![Value::Int32(2)]), 2, -1),
    ];
    let arrived = vec![(Row::new(vec![Value::Int32(3)]), 5, 1)];
    let all = flow_core::types::source_release(buffered, arrived);
    assert_eq!(
        all,
        vec![
            (Row::new(vec![Value::Int32(1)]), 1, 1),
            (Row::new(vec![Value::Int32(2)]), 2, -1),
            (Row::new(vec![Value::Int32(3)]), 5, 1),
        ]
    );
}
