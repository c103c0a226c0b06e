//! What is asked of a planner: where to start and where to arrive.
use vstd::prelude::*;
use crate::space::Point;
use crate::types::COORDINATE_DEFAULT;

verus! {

/// A start, a goal, and room for the configurations that lead from one to
/// the other.
pub struct ProblemDefinition {
    pub start: Point,
    pub goal: Point,
    pub solution: Vec<Point>,
}

impl ProblemDefinition {
    /// A problem with the given ends and no solution yet.
    pub fn new(start: Point, goal: Point) -> (problem: Self)
        ensures
            problem.start == start,
            problem.goal == goal,
            problem.solution@ == Seq::<Point>::empty(),
    {
        ProblemDefinition { start, goal, solution: Vec::new() }
    }

    /// The start.
    pub fn get_start(&self) -> (start: Point)
        ensures
            start == self.start,
    {
        self.start
    }

    /// The goal.
    pub fn get_goal(&self) -> (goal: Point)
        ensures
            goal == self.goal,
    {
        self.goal
    }

    /// Replaces the start and nothing else.
    pub fn set_start(&mut self, start: Point)
        ensures
            final(self).start == start,
            final(self).goal == old(self).goal,
            final(self).solution == old(self).solution,
    {
        self.start = start;
    }

    /// Replaces the goal and nothing else.
    pub fn set_goal(&mut self, goal: Point)
        ensures
            final(self).goal == goal,
            final(self).start == old(self).start,
            final(self).solution == old(self).solution,
    {
        self.goal = goal;
    }
}

impl Default for ProblemDefinition {
    /// Start and goal both at the default point, no solution.
    fn default() -> (problem: Self)
        ensures
            problem.start == (Point { x: COORDINATE_DEFAULT, y: COORDINATE_DEFAULT }),
            problem.goal == (Point { x: COORDINATE_DEFAULT, y: COORDINATE_DEFAULT }),
            problem.solution@ == Seq::<Point>::empty(),
    {
        ProblemDefinition::new(Point::default(), Point::default())
    }
}

} // verus!
