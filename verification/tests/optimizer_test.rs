use std::marker::PhantomData;

use mpl::collision_checker::CollisionChecker;
use mpl::optimizer::{DefaultOptimizer, Optimizer};
use mpl::space::Point;
use mpl::types::COORDINATE_ONE;

fn units(value: f64) -> i64 {
    (value * COORDINATE_ONE as f64).round() as i64
}

fn length(value: f64) -> u64 {
    (value * COORDINATE_ONE as f64).round() as u64
}

struct RejectEveryEdge;

impl CollisionChecker for RejectEveryEdge {
    fn node_blocked(&self, _node: Point) -> bool {
        false
    }

    fn edge_blocked(&self, _begin: Point, _end: Point) -> bool {
        true
    }

    fn init(&self) -> bool {
        true
    }

    fn is_node_colliding(&self, _node: &Point) -> bool {
        false
    }

    fn is_edge_colliding(&self, _node: &Point, _end: &Point) -> bool {
        true
    }
}

#[test]
fn test_default_init() {
    let mut optimizer: DefaultOptimizer = DefaultOptimizer { phantom: PhantomData };
    assert!(optimizer.init());
}

#[test]
fn test_default_edge_weight_x() {
    let optimizer: DefaultOptimizer = DefaultOptimizer { phantom: PhantomData };
    let a: Point = Point::new(units(0f64), units(0f64));
    let b: Point = Point::new(units(1f64), units(0f64));

    let cost: u64 = optimizer.get_edge_weight(a, b).2;
    assert_eq!(length(1f64), cost);
}

#[test]
fn test_default_edge_weight_y() {
    let optimizer: DefaultOptimizer = DefaultOptimizer { phantom: PhantomData };
    let a: Point = Point::new(units(0f64), units(0f64));
    let b: Point = Point::new(units(0f64), units(1f64));

    let cost: u64 = optimizer.get_edge_weight(a, b).2;
    assert_eq!(length(1f64), cost);
}

#[test]
fn custom_checker_answers() {
    let checker: Box<dyn CollisionChecker> = Box::new(RejectEveryEdge);
    let a: Point = Point::new(units(0f64), units(0f64));
    let b: Point = Point::new(units(0f64), units(1f64));
    assert!(checker.is_edge_colliding(&a, &b));
    assert!(!checker.is_node_colliding(&a));
}
