use mpl::node::Node2D;
use mpl::space::{integer_sqrt, Point};
use mpl::types::{
    coordinate_tolerance, default_coordinate, largest_coordinate, largest_cost, Metric2D,
    SpaceContinuous, COORDINATE_DEFAULT, COORDINATE_EPSILON, COORDINATE_MAX, COORDINATE_ONE,
    COST_MAX,
};

fn units(value: f64) -> i64 {
    (value * COORDINATE_ONE as f64).round() as i64
}

fn length(value: f64) -> u64 {
    (value * COORDINATE_ONE as f64).round() as u64
}

#[test]
fn test_euclidean_distance_positive_coordinates() {
    let point1: Point = Point::new(units(3.0), units(4.0));
    let point2: Point = Point::new(units(6.0), units(8.0));

    let distance = point1.euclidean_distance(&point2);

    assert_eq!(distance, length(5.0));
}

#[test]
fn test_euclidean_distance_negative_coordinates() {
    let point1: Point = Point::new(units(-2.0), units(-3.0));
    let point2: Point = Point::new(units(-5.0), units(-7.0));

    let distance = point1.euclidean_distance(&point2);

    assert_eq!(distance, length(5.0));
}

#[test]
fn test_euclidean_distance_with_zero_coordinate() {
    let point1: Point = Point::new(units(0.0), units(0.0));
    let point2: Point = Point::new(units(3.0), units(4.0));
    let distance: u64 = point1.euclidean_distance(&point2);
    assert_eq!(distance, length(5.0));
}

#[test]
fn test_euclidean_distance_far_points() {
    let point1: Point = Point::new(units(1000000.0), units(1000000.0));
    let point2: Point = Point::new(units(-1000000.0), units(-1000000.0));

    let distance: u64 = point1.euclidean_distance(&point2);

    assert_eq!(distance, length(2828427.12474619));
}

#[test]
fn test_euclidean_distance_close_coordinates() {
    let point1: Point = Point::new(units(0.0), units(0.0));
    let point2: Point = Point::new(units(0.000001), units(0.000001));

    let distance: u64 = point1.euclidean_distance(&point2);

    assert!(distance < length(0.00001));
}

#[test]
fn test_euclidean_distance_identical_points() {
    let point1: Point = Point::new(units(0.0), units(0.0));
    let point2: Point = Point::new(units(0.0), units(0.0));
    let distance: u64 = point1.euclidean_distance(&point2);
    assert_eq!(distance, length(0.0));
}

#[test]
fn test_euclidean_distance_different_x_same_y() {
    let point1: Point = Point::new(units(2.0), units(3.0));
    let point2: Point = Point::new(units(5.0), units(3.0));
    let distance: u64 = point1.euclidean_distance(&point2);
    assert_eq!(distance, length(3.0));
}

#[test]
fn test_euclidean_distance_different_y_coordinates() {
    let point1: Point = Point::new(units(0.0), units(0.0));
    let point2: Point = Point::new(units(0.0), units(1.0));
    let distance: u64 = point1.euclidean_distance(&point2);
    assert_eq!(distance, length(1.0));
}

#[test]
fn test_dummy() {
    let tree: f64 = 3f64;
    assert_eq!(tree, 3.0);
}

#[test]
fn distance_rounds_down_to_whole_units() {
    assert_eq!(Point::new(0, 0).euclidean_distance(&Point::new(1, 1)), 1);
    assert_eq!(Point::new(0, 0).euclidean_distance(&Point::new(2, 2)), 2);
    assert_eq!(Point::new(0, 0).euclidean_distance(&Point::new(7, 7)), 9);
    assert_eq!(Point::new(-3, 4).euclidean_distance(&Point::new(0, 0)), 5);
    assert_eq!(Point::new(5, 5).euclidean_distance(&Point::new(5, 5)), 0);
    assert_eq!(Point::new(10, 0).euclidean_distance(&Point::new(0, 0)), 10);
}

#[test]
fn distance_is_the_same_both_ways() {
    let a = Point::new(units(-12.5), units(7.25));
    let b = Point::new(units(3.0), units(-0.125));
    assert_eq!(a.euclidean_distance(&b), b.euclidean_distance(&a));
    assert_eq!(a.euclidean_distance(&b), 1_716_509_903);
}

#[test]
fn distance_between_the_farthest_points_is_capped() {
    let low = Point::new(i64::MIN, i64::MIN);
    let high = Point::new(i64::MAX, i64::MAX);
    assert_eq!(low.euclidean_distance(&high), u64::MAX);
    assert_eq!(high.euclidean_distance(&low), u64::MAX);
    let along = Point::new(i64::MAX, i64::MIN);
    assert_eq!(low.euclidean_distance(&along), u64::MAX);
    assert_eq!(Point::new(0, 0).euclidean_distance(&Point::new(i64::MAX, 0)), i64::MAX as u64);
    assert_eq!(
        Point::new(0, 0).euclidean_distance(&Point::new(i64::MIN, 0)),
        9_223_372_036_854_775_808
    );
}

#[test]
fn integer_square_roots() {
    assert_eq!(integer_sqrt(0), 0);
    assert_eq!(integer_sqrt(1), 1);
    assert_eq!(integer_sqrt(2), 1);
    assert_eq!(integer_sqrt(3), 1);
    assert_eq!(integer_sqrt(4), 2);
    assert_eq!(integer_sqrt(15), 3);
    assert_eq!(integer_sqrt(16), 4);
    assert_eq!(integer_sqrt(17), 4);
    assert_eq!(integer_sqrt(1_000_000), 1_000);
    assert_eq!(integer_sqrt(999_999), 999);
    assert_eq!(integer_sqrt(u128::MAX), u64::MAX);
    assert_eq!(integer_sqrt((u64::MAX as u128) * (u64::MAX as u128)), u64::MAX);
    assert_eq!(integer_sqrt((u64::MAX as u128) * (u64::MAX as u128) - 1), u64::MAX - 1);
}

#[test]
fn points_are_equal_when_their_coordinates_are() {
    assert_eq!(Point::new(1, 2), Point::new(1, 2));
    assert_ne!(Point::new(1, 2), Point::new(2, 2));
    assert_ne!(Point::new(1, 2), Point::new(1, 3));
    assert_ne!(Point::new(1, 2), Point::new(2, 1));
    assert_ne!(Point::new(i64::MIN, 0), Point::new(i64::MAX, 0));
    assert_eq!(Point::new(i64::MIN, i64::MAX), Point::new(i64::MIN, i64::MAX));
    assert_eq!(Point::default(), Point::new(0, 0));
    assert_eq!(Point::new(4, 9).get_x(), 4);
    assert_eq!(Point::new(4, 9).get_y(), 9);
}

#[test]
fn canonical_text_of_a_point() {
    assert_eq!(Point::new(0, 0).to_wkt(), "POINT(0 0)");
    assert_eq!(Point::new(1, 2).to_wkt(), "POINT(1 2)");
    assert_eq!(Point::new(-1, 20).to_wkt(), "POINT(-1 20)");
    assert_eq!(Point::new(10, -305).to_wkt(), "POINT(10 -305)");
    assert_eq!(Point::new(units(1.8), units(2.0)).to_wkt(), "POINT(180000000 200000000)");
    assert_eq!(
        Point::new(i64::MIN, i64::MAX).to_wkt(),
        "POINT(-9223372036854775808 9223372036854775807)"
    );
    assert_ne!(Point::new(1, 23).to_wkt(), Point::new(12, 3).to_wkt());
    assert_ne!(Point::new(1, -2).to_wkt(), Point::new(-1, 2).to_wkt());
}

#[test]
fn canonical_text_agrees_with_well_known_text() {
    for (x, y) in [(0, 0), (5, -5), (-17, 123456789), (i64::MAX, i64::MIN), (1000, 1)] {
        assert_eq!(Point::new(x, y).to_wkt(), Node2D::new(x, y).get_wkt());
    }
}

#[test]
fn the_scalar_contract() {
    assert_eq!(<i64 as SpaceContinuous>::MAX, 1i64 << 60);
    assert_eq!(<i64 as SpaceContinuous>::EPSILON, 1);
    assert_eq!(<i64 as SpaceContinuous>::DEFAULT, 0);
    assert_eq!(<u64 as SpaceContinuous>::MAX, u64::MAX);
    assert_eq!(<u64 as SpaceContinuous>::EPSILON, 1);
    assert_eq!(<u64 as SpaceContinuous>::DEFAULT, 0);
    assert_eq!(<i64 as Metric2D>::MAX, COORDINATE_MAX);
    assert_eq!(<i64 as Metric2D>::EPSILON, COORDINATE_EPSILON);
    assert_eq!(<u64 as Metric2D>::MAX, COST_MAX);
    assert_eq!(<u64 as Metric2D>::EPSILON, 1);
    assert_eq!(largest_coordinate(), 1_152_921_504_606_846_976);
    assert_eq!(coordinate_tolerance(), 1);
    assert_eq!(default_coordinate(), COORDINATE_DEFAULT);
    assert_eq!(largest_cost(), 18_446_744_073_709_551_615);
    assert_eq!(COORDINATE_ONE, 100_000_000);
}
