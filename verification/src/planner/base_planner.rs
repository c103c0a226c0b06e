//! What every planner offers.
use vstd::prelude::*;
use crate::boundaries::Boundaries;
use crate::collision_checker::CollisionChecker;
use crate::planner::connect::{cost_of, is_answer, path_of};
use crate::planner::graph_utils::GRAPH_CAPACITY;
use crate::planner::roadmap::holds;
use crate::space::Point;

verus! {

/// A planner: a start, a goal, boundaries and a collision checker to be
/// set; a roadmap that `init` seeds with the start and the goal and that
/// `solve` grows; and the answer found on it.
pub trait Planner {
    /// The kind of collision checker this planner consults.
    type Checker: CollisionChecker;

    /// Whether the planner's roadmap is well formed and its answer names
    /// nodes of it.
    spec fn wf(&self) -> bool;

    /// Where paths begin.
    spec fn start(&self) -> Point;

    /// Where paths end.
    spec fn goal(&self) -> Point;

    /// The region that samples are drawn from.
    spec fn limits(&self) -> Boundaries;

    /// The collision checker consulted.
    spec fn checker(&self) -> Self::Checker;

    /// The configurations of the roadmap, by node id.
    spec fn nodes(&self) -> Seq<Point>;

    /// The edges of the roadmap: the ids of the two ends and the weight.
    spec fn edges(&self) -> Seq<(usize, usize, u64)>;

    /// The number of nodes from which `solve` stops.
    spec fn max_size(&self) -> usize;

    /// The answer last found: the cost and the node ids of a cheapest
    /// path, if a path was found.
    spec fn solution(&self) -> Option<(u64, Vec<usize>)>;

    /// Whether the planner, as it stands, may reject `sample` instead of
    /// taking it up as a new node.
    spec fn may_reject(&self, sample: Point) -> bool;

    /// Replaces the start and nothing else.
    fn set_start(&mut self, start: Point)
        ensures
            final(self).start() == start,
            final(self).goal() == old(self).goal(),
            final(self).limits() == old(self).limits(),
            final(self).checker() == old(self).checker(),
            final(self).wf() == old(self).wf(),
            final(self).nodes() == old(self).nodes(),
            final(self).edges() == old(self).edges(),
            final(self).max_size() == old(self).max_size(),
            final(self).solution() == old(self).solution(),
    ;

    /// Replaces the goal and nothing else.
    fn set_goal(&mut self, goal: Point)
        ensures
            final(self).start() == old(self).start(),
            final(self).goal() == goal,
            final(self).limits() == old(self).limits(),
            final(self).checker() == old(self).checker(),
            final(self).wf() == old(self).wf(),
            final(self).nodes() == old(self).nodes(),
            final(self).edges() == old(self).edges(),
            final(self).max_size() == old(self).max_size(),
            final(self).solution() == old(self).solution(),
    ;

    /// Replaces the boundaries and nothing else.
    fn set_boundaries(&mut self, boundaries: Boundaries)
        ensures
            final(self).start() == old(self).start(),
            final(self).goal() == old(self).goal(),
            final(self).limits() == boundaries,
            final(self).checker() == old(self).checker(),
            final(self).wf() == old(self).wf(),
            final(self).nodes() == old(self).nodes(),
            final(self).edges() == old(self).edges(),
            final(self).max_size() == old(self).max_size(),
            final(self).solution() == old(self).solution(),
    ;

    /// Replaces the collision checker and nothing else.
    fn set_collision_checker(&mut self, cc: Self::Checker)
        ensures
            final(self).start() == old(self).start(),
            final(self).goal() == old(self).goal(),
            final(self).limits() == old(self).limits(),
            final(self).checker() == cc,
            final(self).wf() == old(self).wf(),
            final(self).nodes() == old(self).nodes(),
            final(self).edges() == old(self).edges(),
            final(self).max_size() == old(self).max_size(),
            final(self).solution() == old(self).solution(),
    ;

    /// Whether `init` may be called: the boundaries lie in range, the start
    /// and the goal lie inside them and are free, and the graph has room
    /// for both.
    fn can_init(&self) -> (valid: bool)
        ensures
            valid == endpoints_valid(
                self.limits(),
                self.start(),
                self.goal(),
                self.checker(),
                self.nodes().len(),
            ),
    ;

    /// Makes the start and the goal nodes of the roadmap, the start first:
    /// each becomes a new node unless it is one already. A start or a goal
    /// outside the boundaries or obstructed is the caller's error.
    fn init(&mut self)
        requires
            old(self).wf(),
            endpoints_valid(
                old(self).limits(),
                old(self).start(),
                old(self).goal(),
                old(self).checker(),
                old(self).nodes().len(),
            ),
        ensures
            final(self).wf(),
            final(self).start() == old(self).start(),
            final(self).goal() == old(self).goal(),
            final(self).checker() == old(self).checker(),
            final(self).max_size() == old(self).max_size(),
            final(self).limits().same_limits(old(self).limits()),
            final(self).edges() == old(self).edges(),
            final(self).solution() == old(self).solution(),
            final(self).nodes() == seeded(old(self).nodes(), old(self).start(), old(self).goal()),
    ;

    /// Grows the roadmap from at most `max_samples` random samples and
    /// says whether it reached the size at which the planner stops. The
    /// size is tested after each sample that is taken up, so a planner that
    /// stops has just reached that size, or was at it already and has taken
    /// up one sample more. Nodes and edges are only added. Every sample
    /// taken up is followed by a fresh search, so once a sample was taken up
    /// the answer is that of the roadmap as it is. Where none was taken up,
    /// the edges and the answer stay too, and if any sample was to be drawn,
    /// a configuration that the boundaries may give was rejected.
    fn solve(&mut self, max_samples: usize) -> (done: bool)
        requires
            old(self).wf(),
        ensures
            final(self).wf(),
            final(self).start() == old(self).start(),
            final(self).goal() == old(self).goal(),
            final(self).checker() == old(self).checker(),
            final(self).max_size() == old(self).max_size(),
            final(self).limits().same_limits(old(self).limits()),
            old(self).nodes().is_prefix_of(final(self).nodes()),
            final(self).nodes().len() <= old(self).nodes().len() + max_samples,
            done ==> stopped_at(
                old(self).nodes().len(),
                final(self).nodes().len(),
                final(self).max_size(),
            ),
            done ==> is_answer(
                final(self).nodes(),
                final(self).edges(),
                final(self).start(),
                final(self).goal(),
                final(self).solution(),
            ),
            !done ==> final(self).nodes().len() < final(self).max_size() || final(self).nodes()
                == old(self).nodes(),
            old(self).edges().is_prefix_of(final(self).edges()),
            final(self).nodes() != old(self).nodes() ==> is_answer(
                final(self).nodes(),
                final(self).edges(),
                final(self).start(),
                final(self).goal(),
                final(self).solution(),
            ),
            final(self).nodes() == old(self).nodes() ==> final(self).edges() == old(self).edges()
                && final(self).solution() == old(self).solution(),
            final(self).nodes() == old(self).nodes() && max_samples > 0 ==> exists|sample: Point|
                old(self).limits().may_draw(sample) && #[trigger] old(self).may_reject(sample),
    ;

    /// The cost of the answer, or the largest cost where there is none.
    fn get_solution_cost(&self) -> (cost: u64)
        ensures
            cost == cost_of(self.solution()),
    ;

    /// Whether there is an answer.
    fn is_solved(&self) -> (solved: bool)
        ensures
            solved == (self.solution() is Some),
    ;

    /// The configurations along the answer, in its order; none where there
    /// is no answer.
    fn get_solution_path(&self) -> (path: Vec<Point>)
        requires
            self.wf(),
        ensures
            path.len() == path_of(self.solution()).len(),
            forall|i: int|
                0 <= i < path.len() ==> #[trigger] path[i] == self.nodes()[path_of(
                    self.solution(),
                )[i] as int],
    ;
}

/// Whether a start and a goal can be made nodes of a planner with the
/// given boundaries and collision checker whose roadmap has `count` nodes:
/// the boundaries lie in range, both points lie inside them and are free,
/// and the graph has room for both.
pub open spec fn endpoints_valid<C: CollisionChecker>(
    limits: Boundaries,
    start: Point,
    goal: Point,
    checker: C,
    count: nat,
) -> bool {
    &&& limits.in_range()
    &&& limits.contains(start)
    &&& limits.contains(goal)
    &&& !checker.node_blocked(start)
    &&& !checker.node_blocked(goal)
    &&& count + 2 <= GRAPH_CAPACITY
}

/// The nodes after `start` and then `goal` were put in, each unless it was
/// there already.
pub open spec fn seeded(nodes: Seq<Point>, start: Point, goal: Point) -> Seq<Point> {
    let with_start = if holds(nodes, start) {
        nodes
    } else {
        nodes.push(start)
    };
    if holds(with_start, goal) {
        with_start
    } else {
        with_start.push(goal)
    }
}

/// Whether a planner that stops at `max_size` nodes, and had `before`
/// nodes, may have stopped with `after`: at `max_size` exactly, or one
/// above `before` where that was at `max_size` or beyond it already.
pub open spec fn stopped_at(before: nat, after: nat, max_size: usize) -> bool {
    &&& after >= max_size
    &&& after == if before + 1 >= max_size {
        before + 1
    } else {
        max_size as nat
    }
}

} // verus!
