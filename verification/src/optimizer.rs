//! The cost of a connection.
use vstd::prelude::*;
use std::marker::PhantomData;
use crate::space::{distance, Point};

verus! {

/// Prices the connection between two configurations. An implementation
/// gives the same pair the same price every time: `edge_weight` is that
/// price.
pub trait Optimizer {
    /// The cost of the connection from `begin` to `end`.
    spec fn edge_weight(&self, begin: Point, end: Point) -> u64;

    /// The two ends as given, and the cost of connecting them.
    fn get_edge_weight(&self, begin: Point, end: Point) -> (priced: (Point, Point, u64))
        ensures
            priced.0 == begin,
            priced.1 == end,
            priced.2 == self.edge_weight(begin, end),
    ;

    /// Runs once, before any connection is priced.
    fn init(&mut self) -> bool;
}

/// Prices a connection at its length.
#[derive(Debug, Copy, Clone)]
pub struct DefaultOptimizer {
    pub phantom: PhantomData<i64>,
}

impl DefaultOptimizer {
    /// A boxed optimizer that prices by length.
    pub fn new_box() -> (optimizer: Box<DefaultOptimizer>)
        ensures
            forall|a: Point, b: Point| #[trigger] optimizer.edge_weight(a, b) == distance(a, b),
    {
        Box::new(DefaultOptimizer { phantom: PhantomData })
    }
}

impl Optimizer for DefaultOptimizer {
    open spec fn edge_weight(&self, begin: Point, end: Point) -> u64 {
        distance(begin, end)
    }

    fn get_edge_weight(&self, begin: Point, end: Point) -> (priced: (Point, Point, u64)) {
        let cost: u64 = begin.euclidean_distance(&end);
        (begin, end, cost)
    }

    /// Has nothing to prepare: always `true`.
    fn init(&mut self) -> (ready: bool)
        ensures
            ready,
    {
        true
    }
}

/// A boxed optimizer prices as the optimizer in the box does, so that a
/// planner takes the one as well as the other.
impl<O: Optimizer> Optimizer for Box<O> {
    open spec fn edge_weight(&self, begin: Point, end: Point) -> u64 {
        (**self).edge_weight(begin, end)
    }

    fn get_edge_weight(&self, begin: Point, end: Point) -> (priced: (Point, Point, u64)) {
        (**self).get_edge_weight(begin, end)
    }

    fn init(&mut self) -> bool {
        (**self).init()
    }
}

} // verus!
