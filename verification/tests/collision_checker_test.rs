use mpl::collision_checker::{CollisionChecker, NaiveCollisionChecker};
use mpl::space::Point;
use mpl::types::COORDINATE_ONE;
use std::marker::PhantomData;

fn units(value: f64) -> i64 {
    (value * COORDINATE_ONE as f64).round() as i64
}

#[test]
fn test_naive_init() {
    let cc: NaiveCollisionChecker = NaiveCollisionChecker { phantom: PhantomData };
    let result = cc.init();
    assert!(result);
}

#[test]
fn test_naive_node() {
    let cc: NaiveCollisionChecker = NaiveCollisionChecker { phantom: PhantomData };
    let begin: &Point = &Point::new(units(1.0), units(2.0));
    let end: &Point = &Point::new(units(1.0), units(2.0));

    let result = cc.is_edge_colliding(begin, end);
    assert!(!result);
}

#[test]
fn test_naive_edge() {
    let cc: NaiveCollisionChecker = NaiveCollisionChecker { phantom: PhantomData };
    let begin: &Point = &Point::new(units(1.0), units(2.0));
    let result: bool = cc.is_node_colliding(begin);
    assert!(!result);
}

#[test]
fn boxed_naive_checker_never_collides() {
    let cc: Box<dyn CollisionChecker> = NaiveCollisionChecker::new_box();
    assert!(cc.init());
    assert!(!cc.is_node_colliding(&Point::new(i64::MIN, i64::MAX)));
    assert!(!cc.is_edge_colliding(&Point::new(0, 0), &Point::new(-7, 9)));
}
