use flow_core::diff_map::DiffMap;

#[test]
fn test_diff_map() {
    let mut a: DiffMap<i32, i32> = DiffMap::new();
    a.insert(1, 1);
    a.insert(2, 2);
    a.insert(3, 3);
    assert_eq!(
        a.gen_diff(0),
        vec![((1, 1), 0, 1), ((2, 2), 0, 1), ((3, 3), 0, 1)]
    );

    a.remove(&2);
    assert_eq!(a.gen_diff(1), vec![((2, 2), 1, -1)]);

    a.insert(2, 4);
    assert_eq!(a.gen_diff(2), vec![((2, 4), 2, 1)]);
    a.insert(2, 5);
    assert_eq!(a.gen_diff(3), vec![((2, 4), 3, -1), ((2, 5), 3, 1)]);
}

#[test]
fn gen_diff_is_idempotent() {
    let mut a: DiffMap<i32, i32> = DiffMap::new();
    a.insert(1, 10);
    a.remove(&1);
    a.insert(2, 20);
    let first = a.gen_diff(5);
    assert!(!first.is_empty());
    assert_eq!(a.gen_diff(5), vec![]);
}

#[test]
fn lookups_see_the_current_binding() {
    let mut a: DiffMap<i32, i32> = DiffMap::new();
    assert_eq!(a.get(&1), None);
    a.insert(1, 10);
    assert_eq!(a.get(&1), Some(&10));
    assert!(a.contains_key(&1));
    if let Some(v) = a.get_mut(&1) {
        *v = 11;
    }
    assert_eq!(a.get(&1), Some(&11));
    assert_eq!(a.remove(&1), Some(11));
    assert_eq!(a.get(&1), None);
}

#[test]
fn insert_then_remove_within_one_tick_cancels() {
    let mut a: DiffMap<i32, i32> = DiffMap::new();
    a.insert(4, 4);
    a.remove(&4);
    // the key was added and dropped inside one tick: no transition survives
    assert_eq!(a.gen_diff(0), vec![]);
}
