//! The collision oracle a planner consults before it keeps a configuration
//! or a connection.
use vstd::prelude::*;
use std::marker::PhantomData;
use crate::space::Point;

verus! {

/// Decides which configurations and which straight connections are
/// obstructed. An implementation answers the same question the same way
/// every time: `node_blocked` and `edge_blocked` are those answers.
pub trait CollisionChecker {
    /// Whether the configuration `node` is obstructed.
    spec fn node_blocked(&self, node: Point) -> bool;

    /// Whether the straight connection from `begin` to `end` is obstructed.
    spec fn edge_blocked(&self, begin: Point, end: Point) -> bool;

    /// Runs once, before any question is asked.
    fn init(&self) -> bool;

    /// Whether `node` is obstructed.
    fn is_node_colliding(&self, node: &Point) -> (colliding: bool)
        ensures
            colliding == self.node_blocked(*node),
    ;

    /// Whether the straight connection from `node` to `end` is obstructed.
    fn is_edge_colliding(&self, node: &Point, end: &Point) -> (colliding: bool)
        ensures
            colliding == self.edge_blocked(*node, *end),
    ;
}

/// The checker of an empty world: nothing ever collides.
#[derive(Copy, Clone, Debug)]
pub struct NaiveCollisionChecker {
    pub phantom: PhantomData<i64>,
}

impl NaiveCollisionChecker {
    /// A boxed checker of the empty world.
    pub fn new_box() -> (checker: Box<NaiveCollisionChecker>)
        ensures
            forall|p: Point| !(#[trigger] checker.node_blocked(p)),
            forall|a: Point, b: Point| !(#[trigger] checker.edge_blocked(a, b)),
    {
        Box::new(NaiveCollisionChecker { phantom: PhantomData })
    }
}

impl CollisionChecker for NaiveCollisionChecker {
    open spec fn node_blocked(&self, node: Point) -> bool {
        false
    }

    open spec fn edge_blocked(&self, begin: Point, end: Point) -> bool {
        false
    }

    /// Has nothing to prepare: always `true`.
    fn init(&self) -> (ready: bool)
        ensures
            ready,
    {
        true
    }

    fn is_edge_colliding(&self, _node: &Point, _end: &Point) -> (colliding: bool) {
        false
    }

    fn is_node_colliding(&self, _node: &Point) -> (colliding: bool) {
        false
    }
}

/// A boxed checker answers as the checker in the box does, so that a
/// planner takes the one as well as the other.
impl<C: CollisionChecker> CollisionChecker for Box<C> {
    open spec fn node_blocked(&self, node: Point) -> bool {
        (**self).node_blocked(node)
    }

    open spec fn edge_blocked(&self, begin: Point, end: Point) -> bool {
        (**self).edge_blocked(begin, end)
    }

    fn init(&self) -> bool {
        (**self).init()
    }

    fn is_node_colliding(&self, node: &Point) -> (colliding: bool) {
        (**self).is_node_colliding(node)
    }

    fn is_edge_colliding(&self, node: &Point, end: &Point) -> (colliding: bool) {
        (**self).is_edge_colliding(node, end)
    }
}

} // verus!
