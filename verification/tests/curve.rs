use fan_manager::curve::{decide, get_default_curve, sort_by_threshold};

#[test]
fn default_curve_breakpoints() {
    assert_eq!(
        get_default_curve(),
        vec![
            (1_000, 10_000),
            (50_000, 20_000),
            (60_000, 50_000),
            (70_000, 80_000),
            (80_000, 100_000)
        ]
    );
}

#[test]
fn decide_on_the_default_curve() {
    let curve = get_default_curve();
    assert_eq!(decide(65_000, &curve), 50_000);
    assert_eq!(decide(500, &curve), 0);
    assert_eq!(decide(100_000, &curve), 100_000);
}

#[test]
fn decide_at_and_around_a_threshold() {
    let curve = get_default_curve();
    assert_eq!(decide(49_999, &curve), 10_000);
    assert_eq!(decide(50_000, &curve), 20_000);
    assert_eq!(decide(50_001, &curve), 20_000);
    assert_eq!(decide(999, &curve), 0);
    assert_eq!(decide(1_000, &curve), 10_000);
    assert_eq!(decide(80_000, &curve), 100_000);
    assert_eq!(decide(i32::MAX, &curve), 100_000);
    assert_eq!(decide(i32::MIN, &curve), 0);
}

#[test]
fn decide_below_the_lowest_threshold_turns_the_fan_off() {
    let curve = vec![(30_000, 40_000), (60_000, 90_000)];
    assert_eq!(decide(29_999, &curve), 0);
    assert_eq!(decide(-5_000, &curve), 0);
}

#[test]
fn decide_on_an_empty_curve_is_zero() {
    assert_eq!(decide(50_000, &Vec::new()), 0);
}

#[test]
fn decide_with_duplicate_thresholds_takes_the_later_entry() {
    let curve = vec![(10_000, 5_000), (50_000, 20_000), (50_000, 30_000), (70_000, 80_000)];
    assert_eq!(decide(50_000, &curve), 30_000);
    assert_eq!(decide(60_000, &curve), 30_000);
    assert_eq!(decide(49_000, &curve), 5_000);
}

#[test]
fn decide_stops_at_the_first_threshold_above() {
    let curve = vec![(10_000, 5_000), (90_000, 99_000), (20_000, 7_000)];
    assert_eq!(decide(50_000, &curve), 5_000);
}

#[test]
fn decide_is_repeatable() {
    let curve = get_default_curve();
    for t in [-1_000, 0, 1_000, 55_000, 65_000, 75_000, 85_000] {
        let first = decide(t, &curve);
        for _ in 0..3 {
            assert_eq!(decide(t, &curve), first);
        }
    }
    assert_eq!(curve, get_default_curve());
}

#[test]
fn sort_orders_by_threshold() {
    let sorted = sort_by_threshold(vec![(70_000, 1), (1_000, 2), (60_000, 3), (50_000, 4)]);
    assert_eq!(sorted, vec![(1_000, 2), (50_000, 4), (60_000, 3), (70_000, 1)]);
    assert_eq!(sort_by_threshold(Vec::new()), Vec::new());
    assert_eq!(sort_by_threshold(vec![(5, 6)]), vec![(5, 6)]);
    assert_eq!(sort_by_threshold(get_default_curve()), get_default_curve());
}

#[test]
fn sort_keeps_the_order_of_equal_thresholds() {
    let sorted = sort_by_threshold(vec![(5, 1), (3, 9), (5, 2), (3, 8), (5, 3), (-1, 0)]);
    assert_eq!(sorted, vec![(-1, 0), (3, 9), (3, 8), (5, 1), (5, 2), (5, 3)]);
}

#[test]
fn sort_agrees_with_a_stable_sort() {
    let given = vec![(9, 0), (2, 1), (7, 2), (2, 3), (9, 4), (0, 5), (7, 6), (-3, 7), (2, 8)];
    let mut expected = given.clone();
    expected.sort_by_key(|p| p.0);
    assert_eq!(sort_by_threshold(given), expected);
}
