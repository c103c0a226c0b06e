use mpl::boundaries::Boundaries;
use mpl::space::Point;
use mpl::types::{COORDINATE_MAX, COORDINATE_ONE};

fn units(value: f64) -> i64 {
    (value * COORDINATE_ONE as f64).round() as i64
}

#[test]
fn test_boundaries_dummy_f64() {
    let bounds: Boundaries = Boundaries::new(units(0f64), units(1f64), units(2f64), units(3f64));
    assert_eq!(units(0f64), bounds.x_lower);
    assert_eq!(units(1f64), bounds.x_upper);
    assert_eq!(units(2f64), bounds.y_lower);
    assert_eq!(units(3f64), bounds.y_upper);
}

#[test]
fn test_boundaries_inside_true() {
    let bounds: Boundaries = Boundaries::new(units(0f64), units(1f64), units(2f64), units(3f64));
    let node: Point = Point::new(units(0.5f64), units(2.5f64));
    assert!(bounds.is_node_inside(&node));
}

#[test]
fn test_boundaries_inside_false_x() {
    let bounds: Boundaries = Boundaries::new(units(0f64), units(1f64), units(2f64), units(3f64));
    let node: Point = Point::new(units(2.5f64), units(2.5f64));
    assert!(!bounds.is_node_inside(&node));
}

#[test]
fn test_boundaries_inside_false_y() {
    let bounds: Boundaries = Boundaries::new(units(0f64), units(1f64), units(2f64), units(3f64));
    let node: Point = Point::new(units(0.5f64), units(0f64));
    assert!(!bounds.is_node_inside(&node));
}

#[test]
fn test_boundaries_dummy_f64_returns_correct_limits() {
    let bounds: Boundaries = Boundaries::new(units(0f64), units(1f64), units(2f64), units(3f64));
    assert_eq!(units(0f64), bounds.x_lower);
    assert_eq!(units(1f64), bounds.x_upper);
    assert_eq!(units(2f64), bounds.y_lower);
    assert_eq!(units(3f64), bounds.y_upper);
}

#[test]
fn test_boundaries_minimum_values() {
    let bounds: Boundaries =
        Boundaries::new(units(f64::MIN), units(f64::MIN), units(f64::MIN), units(f64::MIN));
    assert_eq!(units(f64::MIN), bounds.x_lower);
    assert_eq!(units(f64::MIN), bounds.x_upper);
    assert_eq!(units(f64::MIN), bounds.y_lower);
    assert_eq!(units(f64::MIN), bounds.y_upper);
    assert_eq!(i64::MIN, bounds.get_x_lower());
}

#[test]
fn test_boundaries_maximum_values() {
    let bounds: Boundaries =
        Boundaries::new(units(f64::MAX), units(f64::MAX), units(f64::MAX), units(f64::MAX));
    assert_eq!(units(f64::MAX), bounds.x_lower);
    assert_eq!(units(f64::MAX), bounds.x_upper);
    assert_eq!(units(f64::MAX), bounds.y_lower);
    assert_eq!(units(f64::MAX), bounds.y_upper);
    assert_eq!(i64::MAX, bounds.get_y_upper());
}

#[test]
fn test_boundaries_negative_input() {
    let bounds: Boundaries =
        Boundaries::new(units(-1f64), units(-2f64), units(-3f64), units(-4f64));
    assert_eq!(units(-1f64), bounds.x_lower);
    assert_eq!(units(-2f64), bounds.x_upper);
    assert_eq!(units(-3f64), bounds.y_lower);
    assert_eq!(units(-4f64), bounds.y_upper);
}

#[test]
fn test_boundaries_dummy_f64_non_integer_input() {
    let bounds: Boundaries =
        Boundaries::new(units(0.5f64), units(1.5f64), units(2.5f64), units(3.5f64));
    assert_eq!(units(0.5f64), bounds.x_lower);
    assert_eq!(units(1.5f64), bounds.x_upper);
    assert_eq!(units(2.5f64), bounds.y_lower);
    assert_eq!(units(3.5f64), bounds.y_upper);
    assert_eq!(50_000_000, bounds.x_lower);
}

#[test]
fn test_boundaries_dummy_f64_input_not_in_sequential_order() {
    let bounds: Boundaries = Boundaries::new(units(1f64), units(0f64), units(3f64), units(2f64));
    assert_eq!(units(1f64), bounds.x_lower);
    assert_eq!(units(0f64), bounds.x_upper);
    assert_eq!(units(3f64), bounds.y_lower);
    assert_eq!(units(2f64), bounds.y_upper);
}

#[test]
fn membership_in_the_square_of_side_three() {
    let bounds: Boundaries = Boundaries::new(units(0.0), units(3.0), units(0.0), units(3.0));
    assert!(bounds.is_node_inside(&Point::new(units(0.5), units(2.5))));
    assert!(!bounds.is_node_inside(&Point::new(units(3.5), units(2.5))));
    let raised: Boundaries = Boundaries::new(units(0.0), units(3.0), units(2.0), units(3.0));
    assert!(!raised.is_node_inside(&Point::new(units(0.5), units(0.0))));
}

#[test]
fn membership_includes_the_limits() {
    let bounds: Boundaries = Boundaries::new(-5, 5, 10, 20);
    assert!(bounds.is_node_inside(&Point::new(-5, 10)));
    assert!(bounds.is_node_inside(&Point::new(5, 20)));
    assert!(!bounds.is_node_inside(&Point::new(-6, 10)));
    assert!(!bounds.is_node_inside(&Point::new(5, 21)));
    assert!(!bounds.is_node_inside(&Point::new(6, 15)));
    assert!(!bounds.is_node_inside(&Point::new(0, 9)));
}

#[test]
fn sampling_stays_in_range() {
    let mut bounds: Boundaries = Boundaries::new(units(0.0), units(3.0), units(-1.0), units(2.0));
    let mut distinct = std::collections::HashSet::new();
    for _ in 0..2000 {
        let p = bounds.generate_random_configuration();
        assert!(bounds.is_node_inside(&p));
        assert!(p.get_x() < units(3.0));
        assert!(p.get_y() < units(2.0));
        distinct.insert((p.get_x(), p.get_y()));
    }
    assert!(distinct.len() > 1000);
    assert_eq!(bounds.get_x_lower(), units(0.0));
    assert_eq!(bounds.get_x_upper(), units(3.0));
    assert_eq!(bounds.get_y_lower(), units(-1.0));
    assert_eq!(bounds.get_y_upper(), units(2.0));
}

#[test]
fn sampling_from_reversed_limits_draws_between_them() {
    let mut bounds: Boundaries = Boundaries::new(10, 0, 7, 3);
    for _ in 0..1000 {
        let p = bounds.generate_random_configuration();
        assert!(0 <= p.get_x() && p.get_x() < 10);
        assert!(3 <= p.get_y() && p.get_y() < 7);
        assert!(!bounds.is_node_inside(&p));
    }
}

#[test]
fn sampling_from_equal_limits_gives_that_limit() {
    let mut bounds: Boundaries = Boundaries::new(4, 4, -9, -9);
    for _ in 0..100 {
        let p = bounds.generate_random_configuration();
        assert_eq!(p, Point::new(4, -9));
        assert!(bounds.is_node_inside(&p));
    }
}

#[test]
fn sampling_a_narrow_range_reaches_every_value() {
    let mut bounds: Boundaries = Boundaries::new(0, 2, 0, 1);
    let mut seen = [false; 2];
    for _ in 0..200 {
        let p = bounds.generate_random_configuration();
        assert_eq!(p.get_y(), 0);
        seen[p.get_x() as usize] = true;
    }
    assert!(seen[0] && seen[1]);
}

#[test]
fn default_boundaries_span_the_positive_quadrant() {
    let bounds: Boundaries = Boundaries::default();
    assert_eq!(bounds.get_x_lower(), 0);
    assert_eq!(bounds.get_x_upper(), COORDINATE_MAX);
    assert_eq!(bounds.get_y_lower(), 0);
    assert_eq!(bounds.get_y_upper(), COORDINATE_MAX);
    assert!(bounds.is_in_range());
    assert!(!Boundaries::new(0, COORDINATE_MAX + 1, 0, 1).is_in_range());
    assert!(!Boundaries::new(-COORDINATE_MAX - 1, 0, 0, 1).is_in_range());
}

#[test]
fn setters_replace_one_limit_each() {
    let mut bounds: Boundaries = Boundaries::new(1, 2, 3, 4);
    bounds.set_x_lower(-1);
    assert_eq!((bounds.x_lower, bounds.x_upper, bounds.y_lower, bounds.y_upper), (-1, 2, 3, 4));
    bounds.set_x_upper(20);
    assert_eq!((bounds.x_lower, bounds.x_upper, bounds.y_lower, bounds.y_upper), (-1, 20, 3, 4));
    bounds.set_y_lower(-3);
    assert_eq!((bounds.x_lower, bounds.x_upper, bounds.y_lower, bounds.y_upper), (-1, 20, -3, 4));
    bounds.set_y_upper(40);
    assert_eq!((bounds.x_lower, bounds.x_upper, bounds.y_lower, bounds.y_upper), (-1, 20, -3, 40));
    let copy = bounds.clone();
    assert_eq!((copy.x_lower, copy.x_upper, copy.y_lower, copy.y_upper), (-1, 20, -3, 40));
}
