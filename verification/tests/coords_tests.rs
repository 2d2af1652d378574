use semantic_map::coords::{global_min_max, normalize_points, Point2, UnitPoint};

#[test]
fn min_max_over_both_dimensions_combined() {
    let ps = vec![
        Point2 { x: 3, y: -7 },
        Point2 { x: 12, y: 0 },
        Point2 { x: -2, y: 9 },
    ];
    let (mn, mx) = global_min_max(&ps);
    assert_eq!(mn, -7);
    assert_eq!(mx, 12);
}

#[test]
fn normalization_is_the_exact_fraction() {
    // min 0, max 10: each coordinate becomes (v - 0) / 10.
    let ps = vec![Point2 { x: 0, y: 4 }, Point2 { x: 2, y: 10 }];
    let r = normalize_points(&ps);
    assert_eq!(r.len(), 2);
    assert_eq!(r[0], UnitPoint { num_x: 0, num_y: 4, den: 10 });
    assert_eq!(r[1], UnitPoint { num_x: 2, num_y: 10, den: 10 });
}

#[test]
fn extremes_map_to_zero_and_one() {
    let ps = vec![
        Point2 { x: -5, y: 1 },
        Point2 { x: 0, y: 15 },
        Point2 { x: 7, y: 3 },
    ];
    let r = normalize_points(&ps);
    // Range is [-5, 15], width 20.
    for p in &r {
        assert_eq!(p.den, 20);
        assert!(p.num_x <= p.den && p.num_y <= p.den);
    }
    // The coordinate attaining the minimum maps to 0.
    assert_eq!(r[0].num_x, 0);
    // The coordinate attaining the maximum maps to 1 (num == den).
    assert_eq!(r[1].num_y, 20);
    // An interior value maps strictly between.
    assert_eq!(r[2].num_x, 12);
    assert_eq!(r[2].num_y, 8);
}

#[test]
fn single_record_maps_to_midpoint() {
    // A single point makes min == max: the defined fallback is the exact
    // midpoint 1/2 for both coordinates, never a division by zero.
    let ps = vec![Point2 { x: 42, y: 42 }];
    let r = normalize_points(&ps);
    assert_eq!(r.len(), 1);
    assert_eq!(r[0], UnitPoint { num_x: 1, num_y: 1, den: 2 });
}

#[test]
fn all_equal_values_map_to_midpoint() {
    let ps = vec![Point2 { x: 5, y: 5 }, Point2 { x: 5, y: 5 }];
    let r = normalize_points(&ps);
    assert_eq!(r.len(), 2);
    assert_eq!(r[0], UnitPoint { num_x: 1, num_y: 1, den: 2 });
    assert_eq!(r[1], UnitPoint { num_x: 1, num_y: 1, den: 2 });
}

#[test]
fn empty_input_gives_empty_output() {
    let ps: Vec<Point2> = Vec::new();
    let r = normalize_points(&ps);
    assert!(r.is_empty());
}

#[test]
fn extreme_fixed_point_values_do_not_overflow() {
    let ps = vec![
        Point2 { x: i32::MIN, y: 0 },
        Point2 { x: i32::MAX, y: 1 },
    ];
    let r = normalize_points(&ps);
    let width = (i32::MAX as i64 - i32::MIN as i64) as u64;
    assert_eq!(r[0].num_x, 0);
    assert_eq!(r[0].den, width);
    assert_eq!(r[1].num_x, width);
    assert_eq!(r[1].num_y, (1i64 - i32::MIN as i64) as u64);
}
