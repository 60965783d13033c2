use approx::AbsDiffEq;
use ems_geotechnical::error::Error;
use ems_geotechnical::hydro::difference::{self, sort_values, MERGE_INTERVAL};
use ems_geotechnical::hydro::{ProfilePorePressure, DZ, INFLUENCE_DEPTH};
use ems_geotechnical::profile::{Point, Profile};

/// The fixed-point quantity nearest to `value`.
fn q(value: f64) -> i64 {
    (value * 1e6).round() as i64
}

fn to_float(quantity: i64) -> f64 {
    quantity as f64 / 1e6
}

fn ramp() -> ProfilePorePressure {
    ProfilePorePressure::new(vec![Point::new(q(0.0), q(0.0)), Point::new(q(10.0), q(100.0))])
}

fn eval_case(points: Vec<Point>, eval_point: f64, expected: f64) {
    let profile = ProfilePorePressure::new(points);
    let result = profile.eval(q(eval_point)).unwrap();
    assert_eq!(result, q(expected));
    assert!(f64::abs_diff_eq(&to_float(result), &expected, f64::EPSILON));
}

fn drawdown_case(profile: ProfilePorePressure, drawdown_amount: f64, eval_depth: f64, expected: f64) {
    let drawdown_profile = ProfilePorePressure::drawdown_profile(&profile, q(drawdown_amount)).unwrap();
    assert_eq!(drawdown_profile.eval(q(eval_depth)), Ok(q(expected)));
}

#[test]
fn hm() {
    println!("{}", 1.2 - 1.1);
}

#[test]
fn default() {
    let profile = ProfilePorePressure::default();
    assert_eq!(profile.points().len(), 2);
    assert_eq!(profile.eval(q(50.0)), Ok(q(500.0)));
}

#[test]
fn create_profile() {
    let points = vec![
        Point::new(q(1.0), q(0.0)),
        Point::new(q(10.0), q(90.0)),
        Point::new(q(5.0), q(40.0)),
    ];
    let profile = ProfilePorePressure::new(points);

    println!("{:?}", profile);
    let depths: Vec<i64> = profile.points().iter().map(|p| p.x()).collect();
    assert_eq!(depths, vec![q(1.0), q(5.0), q(10.0)]);
    let values: Vec<i64> = profile.points().iter().map(|p| p.y()).collect();
    assert_eq!(values, vec![q(0.0), q(40.0), q(90.0)]);
}

#[test]
fn eval_case_1_above_the_first_sample() {
    eval_case(vec![Point::new(q(0.0), q(0.0)), Point::new(q(10.0), q(100.0))], -20.0, 0.0);
}

#[test]
fn eval_case_2_at_the_first_sample() {
    eval_case(vec![Point::new(q(0.0), q(0.0)), Point::new(q(10.0), q(100.0))], 0.0, 0.0);
}

#[test]
fn eval_case_3_between_samples() {
    eval_case(vec![Point::new(q(0.0), q(0.0)), Point::new(q(10.0), q(100.0))], 5.0, 50.0);
}

#[test]
fn eval_case_4_at_the_last_sample() {
    eval_case(vec![Point::new(q(0.0), q(0.0)), Point::new(q(10.0), q(100.0))], 10.0, 100.0);
}

#[test]
fn eval_case_5_below_the_last_sample() {
    eval_case(vec![Point::new(q(0.0), q(0.0)), Point::new(q(10.0), q(100.0))], 20.0, 100.0);
}

#[test]
fn eval_case_6_sorting_works() {
    eval_case(vec![Point::new(q(10.0), q(100.0)), Point::new(q(0.0), q(0.0))], 5.0, 50.0);
}

#[test]
fn drawdown_case_1() {
    drawdown_case(ramp(), -10.0, 0.5, 4.5);
}

#[test]
fn drawdown_case_2() {
    drawdown_case(ramp(), -10.0, 0.0, 0.0);
}

#[test]
fn drawdown_case_3() {
    drawdown_case(ramp(), -10.0, 4.5, 40.5);
}

#[test]
fn drawdown_case_4() {
    drawdown_case(ramp(), -10.0, 10.0, 90.0);
}

#[test]
fn drawdown_case_5() {
    drawdown_case(ramp(), 10.0, 0.5, 5.5);
}

#[test]
fn drawdown_case_6() {
    drawdown_case(ramp(), 10.0, 0.0, 0.0);
}

#[test]
fn drawdown_case_7() {
    drawdown_case(ramp(), 10.0, 4.5, 49.5);
}

#[test]
fn drawdown_case_8_full_delta_at_the_base() {
    drawdown_case(ramp(), 10.0, 10.0, 110.0);
}

#[test]
fn eval_of_an_empty_profile_fails() {
    let profile = ProfilePorePressure::new(vec![]);
    assert_eq!(profile.eval(q(1.0)), Err(Error::EmptyOrInsufficientProfile));
    assert!(profile.point_below(q(1.0)).is_none());
    assert!(profile.point_above(q(1.0)).is_none());
}

#[test]
fn eval_at_every_sample_returns_its_value() {
    let points = vec![
        Point::new(q(0.0), q(3.0)),
        Point::new(q(2.5), q(-7.25)),
        Point::new(q(4.0), q(11.0)),
        Point::new(q(9.0), q(0.5)),
    ];
    let profile = ProfilePorePressure::new(points.clone());
    for point in points {
        assert_eq!(profile.eval(point.x()), Ok(point.y()));
    }
}

#[test]
fn eval_of_a_single_sample_is_constant() {
    let profile = ProfilePorePressure::new(vec![Point::new(q(3.0), q(42.0))]);
    assert_eq!(profile.eval(q(-1.0)), Ok(q(42.0)));
    assert_eq!(profile.eval(q(3.0)), Ok(q(42.0)));
    assert_eq!(profile.eval(q(8.0)), Ok(q(42.0)));
}

#[test]
fn eval_is_flat_outside_the_samples() {
    let profile = ProfilePorePressure::new(vec![
        Point::new(q(2.0), q(7.0)),
        Point::new(q(4.0), q(9.0)),
        Point::new(q(6.0), q(-1.0)),
    ]);
    assert_eq!(profile.eval(q(1.999999)), Ok(q(7.0)));
    assert_eq!(profile.eval(i64::MIN), Ok(q(7.0)));
    assert_eq!(profile.eval(q(6.000001)), Ok(q(-1.0)));
    assert_eq!(profile.eval(i64::MAX), Ok(q(-1.0)));
}

#[test]
fn eval_is_linear_between_samples_and_rounds_down() {
    let profile = ProfilePorePressure::new(vec![
        Point::new(q(0.0), q(0.0)),
        Point::new(q(3.0), q(10.0)),
        Point::new(q(6.0), q(0.0)),
    ]);
    // 10 / 3 = 3.333333...
    assert_eq!(profile.eval(q(1.0)), Ok(3_333_333));
    // 10 - 10 / 3 = 6.666666..., rounded down
    assert_eq!(profile.eval(q(4.0)), Ok(6_666_666));
    // 0 + (-10) * 2 / 3 from 10: 3.333333...
    assert_eq!(profile.eval(q(5.0)), Ok(3_333_333));
    let descending = ProfilePorePressure::new(vec![
        Point::new(q(0.0), q(0.0)),
        Point::new(q(3.0), q(-10.0)),
    ]);
    // -3.333333... rounds down to -3.333334
    assert_eq!(descending.eval(q(1.0)), Ok(-3_333_334));
}

#[test]
fn eval_takes_the_whole_range_of_quantities() {
    let profile = ProfilePorePressure::new(vec![
        Point::new(i64::MIN, i64::MAX),
        Point::new(i64::MAX, i64::MIN),
    ]);
    assert_eq!(profile.eval(i64::MIN), Ok(i64::MAX));
    assert_eq!(profile.eval(i64::MAX), Ok(i64::MIN));
    assert_eq!(profile.eval(-1), Ok(0));
    assert_eq!(profile.eval(0), Ok(-1));
}

#[test]
fn the_order_of_the_samples_does_not_matter() {
    let sorted = vec![
        Point::new(q(0.0), q(1.0)),
        Point::new(q(1.0), q(5.0)),
        Point::new(q(2.0), q(2.0)),
        Point::new(q(7.0), q(-3.0)),
    ];
    let shuffled = vec![sorted[2], sorted[0], sorted[3], sorted[1]];
    let a = ProfilePorePressure::new(sorted);
    let b = ProfilePorePressure::new(shuffled);
    let mut x = q(-1.0);
    while x <= q(8.0) {
        assert_eq!(a.eval(x), b.eval(x));
        x += q(0.125);
    }
    for (p, r) in a.points().iter().zip(b.points().iter()) {
        assert_eq!((p.x(), p.y()), (r.x(), r.y()));
    }
}

#[test]
fn samples_of_one_depth_keep_their_order() {
    let profile = ProfilePorePressure::new(vec![
        Point::new(q(5.0), q(1.0)),
        Point::new(q(0.0), q(0.0)),
        Point::new(q(5.0), q(2.0)),
        Point::new(q(5.0), q(3.0)),
    ]);
    let values: Vec<i64> = profile.points().iter().map(|p| p.y()).collect();
    assert_eq!(values, vec![q(0.0), q(1.0), q(2.0), q(3.0)]);
    // at the shared depth the last of its samples counts
    assert_eq!(profile.eval(q(5.0)), Ok(q(3.0)));
    // towards it from above, the first
    assert_eq!(profile.eval(q(2.5)), Ok(q(0.5)));
}

#[test]
fn neighbours_of_a_depth() {
    let profile = ramp();
    let below = profile.point_below(q(5.0)).unwrap();
    let above = profile.point_above(q(5.0)).unwrap();
    assert_eq!((below.x(), below.y()), (q(0.0), q(0.0)));
    assert_eq!((above.x(), above.y()), (q(10.0), q(100.0)));
    assert!(profile.point_below(q(-0.5)).is_none());
    assert!(profile.point_above(q(10.5)).is_none());
    let (on_below, on_above) = profile.point_around(q(10.0));
    assert_eq!(on_below.unwrap().y(), q(100.0));
    assert_eq!(on_above.unwrap().y(), q(100.0));
}

#[test]
fn lerp_between_two_points() {
    let below = Point::new(q(1.0), q(10.0));
    let above = Point::new(q(3.0), q(20.0));
    let middle = ProfilePorePressure::lerp(&below, &above, q(1.5));
    assert_eq!((middle.x(), middle.y()), (q(1.5), q(12.5)));
    let same = ProfilePorePressure::lerp(&below, &Point::new(q(1.0), q(99.0)), q(1.0));
    assert_eq!((same.x(), same.y()), (q(1.0), q(10.0)));
}

#[test]
fn points_compare_by_depth() {
    let a = Point::new(q(1.0), q(5.0));
    let b = Point::new(q(1.0), q(6.0));
    let c = Point::new(q(2.0), q(0.0));
    assert!(a == b);
    assert!(a != c);
    assert!(a < c);
    assert!(c > b);
    assert_eq!(a.partial_cmp(&b), Some(std::cmp::Ordering::Equal));
    assert_eq!(c.partial_cmp(&a), Some(std::cmp::Ordering::Greater));
}

#[test]
fn drawdown_constants() {
    assert_eq!(INFLUENCE_DEPTH, q(10.0));
    assert_eq!(DZ, q(0.1));
}

#[test]
fn drawdown_leaves_the_curve_unchanged_above_the_influence_zone() {
    let base = ProfilePorePressure::new(vec![Point::new(q(0.0), q(0.0)), Point::new(q(30.0), q(300.0))]);
    let drawn = base.drawdown_profile(q(-20.0)).unwrap();
    assert_eq!(drawn.points().len(), 301);
    let mut z = q(0.0);
    while z < q(20.0) {
        assert_eq!(drawn.eval(z), base.eval(z));
        z += q(0.05);
    }
    // the ramp: -20 * (10 - 5) / 10 = -10 at five above the base
    assert_eq!(drawn.eval(q(25.0)), Ok(q(240.0)));
    assert_eq!(drawn.eval(q(30.0)), Ok(q(280.0)));
    // between the last unchanged sample and the first changed one
    assert_eq!(drawn.eval(q(19.95)), Ok(q(199.5)));
}

#[test]
fn drawdown_never_gives_a_negative_pressure() {
    let drawn = ramp().drawdown_profile(q(-500.0)).unwrap();
    for point in drawn.points() {
        assert!(point.y() >= 0);
    }
    assert_eq!(drawn.eval(q(10.0)), Ok(0));
    // 1 - 500 * 0.1 / 10 = -4: clamped
    assert_eq!(drawn.eval(q(0.1)), Ok(0));
}

#[test]
fn drawdown_samples_stop_at_the_base() {
    let base = ProfilePorePressure::new(vec![Point::new(q(0.0), q(0.0)), Point::new(q(0.25), q(10.0))]);
    let drawn = base.drawdown_profile(q(0.0)).unwrap();
    let depths: Vec<i64> = drawn.points().iter().map(|p| p.x()).collect();
    assert_eq!(depths, vec![q(0.0), q(0.1), q(0.2)]);
    assert_eq!(drawn.eval(q(0.25)), Ok(q(8.0)));
}

#[test]
fn drawdown_of_a_profile_that_ends_above_the_surface_is_empty() {
    let base = ProfilePorePressure::new(vec![Point::new(q(-5.0), q(1.0)), Point::new(q(-1.0), q(2.0))]);
    let drawn = base.drawdown_profile(q(3.0)).unwrap();
    assert!(drawn.points().is_empty());
}

#[test]
fn drawdown_of_a_single_sample() {
    let base = ProfilePorePressure::new(vec![Point::new(q(0.2), q(50.0))]);
    let drawn = base.drawdown_profile(q(10.0)).unwrap();
    let values: Vec<i64> = drawn.points().iter().map(|p| p.y()).collect();
    // 10 * (10 - 0.2) / 10, 10 * (10 - 0.1) / 10, 10 on top of 50
    assert_eq!(values, vec![q(59.8), q(59.9), q(60.0)]);
}

#[test]
fn drawdown_of_an_empty_profile_fails() {
    let base = ProfilePorePressure::new(vec![]);
    assert!(matches!(base.drawdown_profile(q(1.0)), Err(Error::EmptyOrInsufficientProfile)));
}

#[test]
fn drawdown_beyond_the_largest_quantity_fails() {
    let base = ProfilePorePressure::new(vec![Point::new(q(0.0), i64::MAX - 5), Point::new(q(1.0), i64::MAX - 5)]);
    assert!(matches!(base.drawdown_profile(q(1.0)), Err(Error::Overflow)));
    assert!(base.drawdown_profile(5).is_ok());
}

#[test]
fn drawdown_with_other_parameters() {
    let drawn = ramp().drawdown_profile_with(q(-10.0), q(5.0), q(0.5)).unwrap();
    assert_eq!(drawn.points().len(), 21);
    assert_eq!(drawn.eval(q(4.5)), Ok(q(45.0)));
    assert_eq!(drawn.eval(q(5.0)), Ok(q(50.0)));
    assert_eq!(drawn.eval(q(7.5)), Ok(q(70.0)));
    assert_eq!(drawn.eval(q(10.0)), Ok(q(90.0)));
}

#[test]
fn a_profile_can_be_cloned() {
    let profile = ramp();
    let copy = profile.clone();
    assert_eq!(copy.eval(q(2.0)), profile.eval(q(2.0)));
    assert_eq!(copy.points().len(), 2);
}

fn subtraction_case(profile: ProfilePorePressure, rhs: ProfilePorePressure, eval_depth: f64, expected: f64) {
    assert_eq!(profile.difference(&rhs).unwrap().eval(q(eval_depth)), Ok(q(expected)));
}

fn bent() -> ProfilePorePressure {
    ProfilePorePressure::new(vec![
        Point::new(q(0.0), q(0.0)),
        Point::new(q(5.0), q(10.0)),
        Point::new(q(10.0), q(100.0)),
    ])
}

fn flat() -> ProfilePorePressure {
    ProfilePorePressure::new(vec![Point::new(q(0.0), q(0.0)), Point::new(q(10.0), q(0.0))])
}

#[test]
fn unique_values() {
    let values = vec![q(1.0), q(1.01), q(1.32), q(1.1), q(1.2), q(1.21), q(1.4)];
    let kept = difference::unique(&values, q(0.1));
    println!("{:?}", kept);
    assert_eq!(kept, vec![q(1.0), q(1.1), q(1.2), q(1.32), q(1.4)]);
}

#[test]
fn unique() {
    let values = vec![q(1.0), q(1.01), q(1.32), q(1.1), q(1.2), q(1.21), q(1.4)];
    println!("{:?}", difference::unique(&values, q(0.1)));
}

#[test]
fn unique_keeps_the_ends_and_short_lists() {
    assert_eq!(difference::unique(&vec![], q(0.1)), Vec::<i64>::new());
    assert_eq!(difference::unique(&vec![5], q(0.1)), vec![5]);
    assert_eq!(difference::unique(&vec![7, 5], q(0.1)), vec![5, 7]);
    assert_eq!(difference::unique(&vec![5, 6, 7], q(0.1)), vec![5, 7]);
    assert_eq!(difference::unique(&vec![0, q(10.0), 0, q(10.0)], q(0.1)), vec![0, q(10.0), q(10.0)]);
    // all but a thousandth of the interval is far enough
    assert_eq!(difference::unique(&vec![0, 99_900, q(1.0)], q(0.1)), vec![0, 99_900, q(1.0)]);
    assert_eq!(difference::unique(&vec![0, 99_899, q(1.0)], q(-0.1)), vec![0, q(1.0)]);
    // the largest interval: 0 lies a little further than 0.999 of it from the least value
    assert_eq!(difference::unique(&vec![i64::MIN, 0, i64::MAX], i64::MIN), vec![i64::MIN, 0, i64::MAX]);
    assert_eq!(difference::unique(&vec![i64::MIN, -10, i64::MAX], i64::MAX), vec![i64::MIN, -10, i64::MAX]);
    assert_eq!(difference::unique(&vec![-10, 0, i64::MAX], i64::MAX), vec![-10, i64::MAX]);
    assert_eq!(MERGE_INTERVAL, q(0.1));
}

#[test]
fn values_in_ascending_order() {
    assert_eq!(sort_values(&vec![3, -1, 2, 3, i64::MIN, 0]), vec![i64::MIN, -1, 0, 2, 3, 3]);
}

#[test]
fn subtraction_case_1() {
    subtraction_case(ramp(), ramp(), 10.0, 0.0);
}

#[test]
fn subtraction_case_2() {
    subtraction_case(ramp(), ramp(), 0.0, 0.0);
}

#[test]
fn subtraction_case_3() {
    subtraction_case(ramp(), flat(), 0.0, 0.0);
}

#[test]
fn subtraction_case_4() {
    subtraction_case(ramp(), flat(), 10.0, 100.0);
}

#[test]
fn subtraction_case_5() {
    subtraction_case(ramp(), bent(), 5.0, 40.0);
}

#[test]
fn subtraction_case_6() {
    subtraction_case(ramp(), bent(), 7.5, 20.0);
}

#[test]
fn subtraction_dbg() {
    let lhs = ramp();
    let rhs = ramp();
    let remainder = lhs.difference(&rhs).unwrap();
    println!("{:?}", remainder);
    let samples: Vec<(i64, i64)> = remainder.points().iter().map(|p| (p.x(), p.y())).collect();
    assert_eq!(samples, vec![(q(0.0), 0), (q(10.0), 0), (q(10.0), 0)]);
}

#[test]
fn subtraction_failures() {
    let empty = ProfilePorePressure::new(vec![]);
    assert!(matches!(ramp().difference(&empty), Err(Error::EmptyOrInsufficientProfile)));
    assert!(matches!(empty.difference(&ramp()), Err(Error::EmptyOrInsufficientProfile)));
    assert!(empty.difference(&empty).unwrap().points().is_empty());
    let high = ProfilePorePressure::new(vec![Point::new(0, i64::MAX)]);
    let low = ProfilePorePressure::new(vec![Point::new(0, -1)]);
    assert!(matches!(high.difference(&low), Err(Error::Overflow)));
    assert_eq!(low.difference(&high).unwrap().eval(0), Ok(i64::MIN));
}

#[test]
fn depths_of_a_profile() {
    assert_eq!(bent().xs(), vec![q(0.0), q(5.0), q(10.0)]);
    assert_eq!(ProfilePorePressure::new(vec![]).xs(), Vec::<i64>::new());
}

#[test]
fn points_add_and_scale() {
    let sum = Point::new(q(1.0), q(2.0)) + Point::new(q(0.5), q(-3.0));
    assert_eq!((sum.x(), sum.y()), (q(1.5), q(-1.0)));
    let scaled = &Point::new(q(3.0), q(-1.0)) * q(0.5);
    assert_eq!((scaled.x(), scaled.y()), (q(1.5), q(-0.5)));
    let rounded = &Point::new(1, -1) * q(0.5);
    assert_eq!((rounded.x(), rounded.y()), (0, -1));
}
