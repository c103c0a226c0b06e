//! A planner, a problem and boundaries, brought together before planning.
use vstd::prelude::*;
use crate::boundaries::Boundaries;
use crate::planner::base_planner::{endpoints_valid, seeded, stopped_at, Planner};
use crate::planner::connect::{cost_of, is_answer};
use crate::problem::ProblemDefinition;
use crate::space::Point;

verus! {

/// A planner with the problem it is to solve and the boundaries it is to
/// stay in. It is ready once `setup` has handed both to the planner and the
/// planner has taken the start and the goal up.
pub struct PlanningSetup<P: Planner> {
    pub planner: Box<P>,
    pub problem: ProblemDefinition,
    pub boundaries: Boundaries,
    pub ready: bool,
}

impl<P: Planner> PlanningSetup<P> {
    /// Hands the start, the goal and the boundaries to the planner. If the
    /// boundaries are the right way round and the start and the goal can be
    /// made nodes, the planner is initialised and the setup is ready;
    /// otherwise the planner's roadmap stays as it is and the setup is not
    /// ready.
    pub fn setup(&mut self)
        requires
            old(self).planner.wf(),
        ensures
            final(self).problem == old(self).problem,
            final(self).boundaries == old(self).boundaries,
            final(self).planner.start() == old(self).problem.start,
            final(self).planner.goal() == old(self).problem.goal,
            final(self).planner.limits().same_limits(old(self).boundaries),
            final(self).planner.checker() == old(self).planner.checker(),
            final(self).planner.max_size() == old(self).planner.max_size(),
            final(self).planner.edges() == old(self).planner.edges(),
            final(self).planner.solution() == old(self).planner.solution(),
            final(self).planner.wf(),
            final(self).ready == (!old(self).boundaries.reversed() && endpoints_valid(
                old(self).boundaries,
                old(self).problem.start,
                old(self).problem.goal,
                old(self).planner.checker(),
                old(self).planner.nodes().len(),
            )),
            final(self).planner.nodes() == if final(self).ready {
                seeded(old(self).planner.nodes(), old(self).problem.start, old(self).problem.goal)
            } else {
                old(self).planner.nodes()
            },
    {
        self.planner.set_start(self.problem.get_start());
        self.planner.set_goal(self.problem.get_goal());
        self.planner.set_boundaries(self.boundaries.clone());
        if self.sanity_check() && self.planner.can_init() {
            self.planner.init();
            self.ready = true;
        } else {
            self.ready = false;
        }
    }

    /// Whether on both axes the lower limit is at or below the upper
    /// limit.
    pub fn sanity_check(&self) -> (sane: bool)
        ensures
            sane == !self.boundaries.reversed(),
    {
        if self.boundaries.get_x_lower() > self.boundaries.get_x_upper() {
            return false;
        }
        if self.boundaries.get_y_lower() > self.boundaries.get_y_upper() {
            return false;
        }
        true
    }

    /// Lets the planner grow its roadmap from at most `max_samples`
    /// samples, and says whether it reached the size at which it stops:
    /// nodes and edges are only added; once a sample was taken up the answer
    /// is that of the roadmap as it is; where none was taken up the edges
    /// and the answer stay, and if any sample was to be drawn, a
    /// configuration that the boundaries may give was rejected. A setup
    /// that is not ready must not be asked to solve.
    pub fn solve(&mut self, max_samples: usize) -> (done: bool)
        requires
            old(self).ready,
            old(self).planner.wf(),
        ensures
            final(self).ready,
            final(self).problem == old(self).problem,
            final(self).boundaries == old(self).boundaries,
            final(self).planner.wf(),
            final(self).planner.start() == old(self).planner.start(),
            final(self).planner.goal() == old(self).planner.goal(),
            final(self).planner.checker() == old(self).planner.checker(),
            final(self).planner.max_size() == old(self).planner.max_size(),
            final(self).planner.limits().same_limits(old(self).planner.limits()),
            old(self).planner.nodes().is_prefix_of(final(self).planner.nodes()),
            final(self).planner.nodes().len() <= old(self).planner.nodes().len() + max_samples,
            done ==> stopped_at(
                old(self).planner.nodes().len(),
                final(self).planner.nodes().len(),
                final(self).planner.max_size(),
            ),
            done ==> is_answer(
                final(self).planner.nodes(),
                final(self).planner.edges(),
                final(self).planner.start(),
                final(self).planner.goal(),
                final(self).planner.solution(),
            ),
            !done ==> final(self).planner.nodes().len() < final(self).planner.max_size()
                || final(self).planner.nodes() == old(self).planner.nodes(),
            old(self).planner.edges().is_prefix_of(final(self).planner.edges()),
            final(self).planner.nodes() != old(self).planner.nodes() ==> is_answer(
                final(self).planner.nodes(),
                final(self).planner.edges(),
                final(self).planner.start(),
                final(self).planner.goal(),
                final(self).planner.solution(),
            ),
            final(self).planner.nodes() == old(self).planner.nodes() ==> final(self).planner.edges()
                == old(self).planner.edges() && final(self).planner.solution() == old(
                self,
            ).planner.solution(),
            final(self).planner.nodes() == old(self).planner.nodes() && max_samples > 0
                ==> exists|sample: Point|
                old(self).planner.limits().may_draw(sample) && #[trigger] old(
                    self,
                ).planner.may_reject(sample),
    {
        self.planner.solve(max_samples)
    }

    /// The cost of the planner's answer, or the largest cost where it has
    /// none.
    pub fn get_statistics(&self) -> (cost: u64)
        ensures
            cost == cost_of(self.planner.solution()),
    {
        self.planner.get_solution_cost()
    }
}

} // verus!
