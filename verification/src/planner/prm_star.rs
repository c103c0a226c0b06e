//! The anytime planner: a probabilistic roadmap whose answer is searched
//! afresh after every sample, so that it can only get cheaper as sampling
//! goes on.
use vstd::prelude::*;
use std::marker::PhantomData;
use petgraph::graph::Graph;
use petgraph::Undirected;
use crate::boundaries::Boundaries;
use crate::collision_checker::{CollisionChecker, NaiveCollisionChecker};
use crate::optimizer::{DefaultOptimizer, Optimizer};
use crate::planner::base_planner::Planner;
use crate::planner::connect::{
    add_free_node, admits, answer, connect_node, grown, is_answer, joined_exactly,
    joined_to_nearest,
    lemma_grown_twice, lemma_joined_grows, lemma_taken_none, lemma_taken_one_more, taken_in_turn,
};
use crate::planner::graph_utils::{graph_edges, graph_nodes, GRAPH_CAPACITY};
use crate::planner::roadmap::{holds, point_of, Roadmap};
use crate::planner::termination::BaseTerminationCriteria;
use crate::space::Point;
use crate::types::{largest_cost, COORDINATE_ONE};

verus! {

/// How far a planner reaches and when it stops.
pub struct Config {
    /// How many of its nearest neighbours a new node is connected to.
    pub default_nearest_neighbors: u8,
    /// The number of nodes from which the planner stops.
    pub max_size: usize,
}

impl Default for Config {
    /// Ten neighbours, thirty-two nodes.
    fn default() -> (config: Self)
        ensures
            config.default_nearest_neighbors == 10,
            config.max_size == 32,
    {
        Config { default_nearest_neighbors: 10u8, max_size: 32usize }
    }
}

/// A probabilistic roadmap for optimal planning: one sample at a time,
/// each joined to its nearest neighbours where the straight connection is
/// free, and a fresh search for the cheapest path after each. That the
/// answer approaches the cheapest path as sampling goes on is what the
/// planner is meant for, not something it tests.
pub struct PRMstar<C: CollisionChecker, O: Optimizer> {
    pub start: Point,
    pub goal: Point,
    pub boundaries: Boundaries,
    pub roadmap: Roadmap,
    pub solution: Option<(u64, Vec<usize>)>,
    pub optimizer: O,
    pub is_solved: bool,
    pub collision_checker: C,
    pub config: Config,
}

impl<C: CollisionChecker, O: Optimizer> Planner for PRMstar<C, O> {
    type Checker = C;

    open spec fn wf(&self) -> bool {
        &&& self.roadmap.wf()
        &&& self.is_solved == (self.solution is Some)
        &&& match self.solution {
            Some((_, path)) => forall|i: int|
                0 <= i < path.len() ==> (#[trigger] path[i]) < self.roadmap.nodes().len(),
            None => true,
        }
    }

    open spec fn start(&self) -> Point {
        self.start
    }

    open spec fn goal(&self) -> Point {
        self.goal
    }

    open spec fn limits(&self) -> Boundaries {
        self.boundaries
    }

    open spec fn checker(&self) -> C {
        self.collision_checker
    }

    open spec fn nodes(&self) -> Seq<Point> {
        self.roadmap.nodes()
    }

    open spec fn edges(&self) -> Seq<(usize, usize, u64)> {
        self.roadmap.edges()
    }

    open spec fn max_size(&self) -> usize {
        self.config.max_size
    }

    open spec fn solution(&self) -> Option<(u64, Vec<usize>)> {
        self.solution
    }

    open spec fn may_reject(&self, sample: Point) -> bool {
        !admits(self.roadmap.nodes(), sample, self.collision_checker)
    }

    fn set_start(&mut self, start: Point)
        ensures
            final(self).optimizer == old(self).optimizer,
            final(self).config == old(self).config,
    {
        self.start = start;
    }

    fn set_goal(&mut self, goal: Point)
        ensures
            final(self).optimizer == old(self).optimizer,
            final(self).config == old(self).config,
    {
        self.goal = goal;
    }

    fn set_boundaries(&mut self, boundaries: Boundaries)
        ensures
            final(self).optimizer == old(self).optimizer,
            final(self).config == old(self).config,
    {
        self.boundaries = boundaries;
    }

    fn set_collision_checker(&mut self, cc: C)
        ensures
            final(self).optimizer == old(self).optimizer,
            final(self).config == old(self).config,
    {
        self.collision_checker = cc;
    }

    fn can_init(&self) -> (valid: bool) {
        self.boundaries.is_in_range() && self.boundaries.is_node_inside(&self.start)
            && self.boundaries.is_node_inside(&self.goal)
            && !self.collision_checker.is_node_colliding(&self.start)
            && !self.collision_checker.is_node_colliding(&self.goal) && self.roadmap.node_count()
            <= GRAPH_CAPACITY - 2
    }

    fn init(&mut self)
        ensures
            final(self).optimizer == old(self).optimizer,
            final(self).config == old(self).config,
            final(self).is_solved == old(self).is_solved,
            holds(final(self).roadmap.nodes(), final(self).start),
            holds(final(self).roadmap.nodes(), final(self).goal),
    {
        let _ = self.roadmap.insert_node(self.start);
        proof {
            let nodes = self.roadmap.nodes();
            let at = choose|at: int| 0 <= at < nodes.len() && nodes[at] == self.start;
            assert(nodes[at] == self.start);
        }
        let ghost with_start = self.roadmap.nodes();
        let _ = self.roadmap.insert_node(self.goal);
        proof {
            let nodes = self.roadmap.nodes();
            let at = choose|at: int| 0 <= at < with_start.len() && with_start[at] == self.start;
            assert(nodes[at] == self.start);
        }
    }

    fn solve(&mut self, max_samples: usize) -> (done: bool)
        ensures
            final(self).optimizer == old(self).optimizer,
            final(self).config == old(self).config,
            exists|added: Seq<Point>|
                final(self).roadmap.nodes() == old(self).roadmap.nodes() + added && taken_in_turn(
                    old(self).roadmap.nodes(),
                    old(self).roadmap.edges(),
                    added,
                    old(self).config.default_nearest_neighbors as usize,
                    old(self).collision_checker,
                    old(self).optimizer,
                    final(self).roadmap.edges(),
                ),
            grown(
                old(self).roadmap.edges(),
                final(self).roadmap.edges(),
                final(self).roadmap.nodes(),
                final(self).collision_checker,
                final(self).optimizer,
            ),
    {
        let mut left: usize = max_samples;
        let ghost added: Seq<Point> = Seq::empty();
        let ghost rejected: Point = self.start;
        proof {
            assert(self.roadmap.nodes().is_prefix_of(self.roadmap.nodes()));
            assert(self.roadmap.nodes() =~= old(self).roadmap.nodes() + added);
            lemma_taken_none(
                old(self).roadmap.nodes(),
                old(self).roadmap.edges(),
                old(self).config.default_nearest_neighbors as usize,
                old(self).collision_checker,
                old(self).optimizer,
            );
        }
        while left > 0
            invariant
                self.wf(),
                self.roadmap.nodes() == old(self).roadmap.nodes() + added,
                taken_in_turn(
                    old(self).roadmap.nodes(),
                    old(self).roadmap.edges(),
                    added,
                    old(self).config.default_nearest_neighbors as usize,
                    old(self).collision_checker,
                    old(self).optimizer,
                    self.roadmap.edges(),
                ),
                self.start == old(self).start,
                self.goal == old(self).goal,
                self.collision_checker == old(self).collision_checker,
                self.optimizer == old(self).optimizer,
                self.config == old(self).config,
                self.boundaries.same_limits(old(self).boundaries),
                old(self).roadmap.nodes().is_prefix_of(self.roadmap.nodes()),
                self.roadmap.nodes().len() + left <= old(self).roadmap.nodes().len() + max_samples,
                self.roadmap.nodes().len() < self.config.max_size || self.roadmap.nodes() == old(
                    self,
                ).roadmap.nodes(),
                added.len() > 0 ==> is_answer(
                    self.roadmap.nodes(),
                    self.roadmap.edges(),
                    self.start,
                    self.goal,
                    self.solution,
                ),
                added.len() == 0 ==> self.roadmap.edges() == old(self).roadmap.edges()
                    && self.solution == old(self).solution,
                added.len() == 0 && left < max_samples ==> old(self).boundaries.may_draw(rejected)
                    && old(self).may_reject(rejected),
                grown(
                    old(self).roadmap.edges(),
                    self.roadmap.edges(),
                    self.roadmap.nodes(),
                    self.collision_checker,
                    self.optimizer,
                ),
            decreases left,
        {
            let ghost nodes_before = self.roadmap.nodes();
            let ghost edges_before = self.roadmap.edges();
            match self.add_random_node(&mut left) {
                Some(added_node) => {
                    self.connect_node_to_graph(added_node);
                    self.check_solution();
                    proof {
                        let longer = added.push(added_node);
                        assert(self.roadmap.nodes() =~= old(self).roadmap.nodes() + longer);
                        lemma_taken_one_more(
                            old(self).roadmap.nodes(),
                            old(self).roadmap.edges(),
                            added,
                            added_node,
                            old(self).config.default_nearest_neighbors as usize,
                            old(self).collision_checker,
                            old(self).optimizer,
                            edges_before,
                            self.roadmap.edges(),
                        );
                        added = longer;
                        lemma_joined_grows(
                            edges_before,
                            self.roadmap.nodes(),
                            added_node,
                            self.config.default_nearest_neighbors as usize,
                            self.collision_checker,
                            self.optimizer,
                            self.roadmap.edges(),
                        );
                        lemma_grown_twice(
                            old(self).roadmap.edges(),
                            edges_before,
                            self.roadmap.edges(),
                            nodes_before,
                            self.roadmap.nodes(),
                            self.collision_checker,
                            self.optimizer,
                        );
                    }
                    if self.is_termination_criteria_met() {
                        return true;
                    }
                },
                None => {
                    proof {
                        if added.len() == 0 {
                            rejected = choose|sample: Point|
                                old(self).boundaries.may_draw(sample) && !(#[trigger] admits(
                                    nodes_before,
                                    sample,
                                    old(self).collision_checker,
                                ));
                        }
                    }
                },
            }
        }
        proof {
            if added.len() == 0 && max_samples > 0 {
                assert(old(self).limits().may_draw(rejected) && old(self).may_reject(rejected));
            }
        }
        false
    }

    fn get_solution_cost(&self) -> (cost: u64) {
        match &self.solution {
            None => largest_cost(),
            Some((cost, _)) => *cost,
        }
    }

    fn is_solved(&self) -> (solved: bool) {
        self.solution.is_some()
    }

    fn get_solution_path(&self) -> (path: Vec<Point>) {
        let mut path: Vec<Point> = Vec::new();
        match &self.solution {
            Some((_, ids)) => {
                let mut at: usize = 0;
                while at < ids.len()
                    invariant
                        self.wf(),
                        self.solution matches Some((_, all)) && all == *ids,
                        0 <= at <= ids.len(),
                        path.len() == at,
                        forall|i: int|
                            0 <= i < at ==> #[trigger] path[i] == self.roadmap.nodes()[ids[i] as int],
                    decreases ids.len() - at,
                {
                    match self.roadmap.node(ids[at]) {
                        Some(p) => {
                            path.push(p);
                        },
                        None => {
                            assert(false);
                        },
                    }
                    at = at + 1;
                }
            },
            None => {},
        }
        path
    }
}

impl<C: CollisionChecker, O: Optimizer> PRMstar<C, O> {
    /// A planner for the query from `start` to `goal` inside `boundaries`
    /// that prices connections as `optimizer` does and consults
    /// `collision_checker`: no nodes, default configuration.
    pub fn new(
        start: Point,
        goal: Point,
        boundaries: Boundaries,
        optimizer: O,
        collision_checker: C,
    ) -> (planner: Self)
        ensures
            planner.wf(),
            planner.start == start,
            planner.goal == goal,
            planner.boundaries == boundaries,
            planner.collision_checker == collision_checker,
            planner.optimizer == optimizer,
            planner.roadmap.nodes() == Seq::<Point>::empty(),
            planner.roadmap.edges() == Seq::<(usize, usize, u64)>::empty(),
            planner.solution is None,
            !planner.is_solved,
            planner.config.default_nearest_neighbors == 10,
            planner.config.max_size == 32,
    {
        PRMstar {
            start,
            goal,
            boundaries,
            roadmap: Roadmap::new(),
            solution: None,
            optimizer,
            is_solved: false,
            collision_checker,
            config: Config::default(),
        }
    }

    /// Whether this planner differs from `other` in its roadmap and its
    /// answer at most.
    pub open spec fn same_setting(&self, other: &Self) -> bool {
        &&& self.start == other.start
        &&& self.goal == other.goal
        &&& self.collision_checker == other.collision_checker
        &&& self.optimizer == other.optimizer
        &&& self.config == other.config
        &&& self.boundaries.same_limits(other.boundaries)
    }

    /// Makes `node` a node of the roadmap, with the lookup and the spatial
    /// index in step, unless it is obstructed, out of range or a node
    /// already, or the graph is full. Says whether it did.
    pub fn add_node(&mut self, node: Point) -> (added: bool)
        requires
            old(self).wf(),
        ensures
            final(self).wf(),
            final(self).same_setting(old(self)),
            final(self).boundaries == old(self).boundaries,
            final(self).solution == old(self).solution,
            final(self).is_solved == old(self).is_solved,
            final(self).roadmap.edges() == old(self).roadmap.edges(),
            added == admits(old(self).roadmap.nodes(), node, old(self).collision_checker),
            final(self).roadmap.nodes() == if added {
                old(self).roadmap.nodes().push(node)
            } else {
                old(self).roadmap.nodes()
            },
    {
        add_free_node(&mut self.roadmap, &self.collision_checker, node)
    }

    /// Draws samples until the roadmap takes one as a new node, and
    /// returns that one; each draw takes one off `left`, and with none left
    /// it gives up. Every draw but the one returned was of a configuration
    /// that the roadmap did not admit.
    pub fn add_random_node(&mut self, left: &mut usize) -> (added: Option<Point>)
        requires
            old(self).wf(),
        ensures
            final(self).wf(),
            final(self).same_setting(old(self)),
            final(self).solution == old(self).solution,
            final(self).is_solved == old(self).is_solved,
            final(self).roadmap.edges() == old(self).roadmap.edges(),
            *final(left) <= *old(left),
            match added {
                Some(node) => {
                    &&& old(self).boundaries.may_draw(node)
                    &&& admits(old(self).roadmap.nodes(), node, old(self).collision_checker)
                    &&& final(self).roadmap.nodes() == old(self).roadmap.nodes().push(node)
                    &&& *final(left) < *old(left)
                },
                None => final(self).roadmap.nodes() == old(self).roadmap.nodes() && *final(left) == 0,
            },
            *old(left) - *final(left) > (if added is Some {
                1int
            } else {
                0int
            }) ==> exists|sample: Point|
                old(self).boundaries.may_draw(sample) && !(#[trigger] admits(
                    old(self).roadmap.nodes(),
                    sample,
                    old(self).collision_checker,
                )),
    {
        let ghost rejected: Point = self.start;
        while *left > 0
            invariant
                self.wf(),
                self.same_setting(old(self)),
                self.solution == old(self).solution,
                self.is_solved == old(self).is_solved,
                self.roadmap.edges() == old(self).roadmap.edges(),
                self.roadmap.nodes() == old(self).roadmap.nodes(),
                *left <= *old(left),
                *left < *old(left) ==> old(self).boundaries.may_draw(rejected) && !admits(
                    old(self).roadmap.nodes(),
                    rejected,
                    old(self).collision_checker,
                ),
            decreases *left,
        {
            *left = *left - 1;
            let candidate: Point = self.boundaries.generate_random_configuration();
            if self.add_node(candidate) {
                return Some(candidate);
            }
            proof {
                rejected = candidate;
            }
        }
        None
    }

    /// Joins `node` to its nearest neighbours, as many as the
    /// configuration says: to each of them that is another node, not joined
    /// to it yet, and reached by a free straight connection, by an edge at
    /// the optimizer's price. Doing so again, with no node put in in
    /// between, adds nothing.
    pub fn connect_node_to_graph(&mut self, node: Point)
        requires
            old(self).wf(),
        ensures
            final(self).wf(),
            final(self).same_setting(old(self)),
            final(self).boundaries == old(self).boundaries,
            final(self).solution == old(self).solution,
            final(self).is_solved == old(self).is_solved,
            final(self).roadmap.nodes() == old(self).roadmap.nodes(),
            joined_to_nearest(
                old(self).roadmap.edges(),
                old(self).roadmap.nodes(),
                node,
                old(self).config.default_nearest_neighbors as usize,
                old(self).collision_checker,
                old(self).optimizer,
                final(self).roadmap.edges(),
            ),
            final(self).roadmap.edges() == joined_exactly(
                old(self).roadmap,
                node,
                old(self).config.default_nearest_neighbors as usize,
                old(self).collision_checker,
                old(self).optimizer,
            ),
            forall|p: Point, j: usize| #[trigger]
                final(self).roadmap.neighbours(p, j) == old(self).roadmap.neighbours(p, j),
    {
        connect_node(
            &mut self.roadmap,
            &self.collision_checker,
            &self.optimizer,
            node,
            self.config.default_nearest_neighbors as usize,
        );
    }

    /// Searches the roadmap afresh for a cheapest path from the start to
    /// the goal and keeps what it finds as the answer.
    pub fn check_solution(&mut self)
        requires
            old(self).roadmap.wf(),
        ensures
            final(self).wf(),
            final(self).same_setting(old(self)),
            final(self).boundaries == old(self).boundaries,
            final(self).roadmap == old(self).roadmap,
            is_answer(
                final(self).roadmap.nodes(),
                final(self).roadmap.edges(),
                final(self).start,
                final(self).goal,
                final(self).solution,
            ),
    {
        self.solution = answer(&self.roadmap, &self.start, &self.goal);
        self.is_solved = self.solution.is_some();
    }

    /// Whether the roadmap has reached the size at which the planner
    /// stops.
    pub fn is_termination_criteria_met(&self) -> (met: bool)
        ensures
            met == (self.roadmap.nodes().len() >= self.config.max_size),
    {
        BaseTerminationCriteria::new(self.config.max_size).is_met(self.roadmap.node_count())
    }

    /// The graph of the roadmap, for a reader that writes it out.
    pub fn get_graph(&self) -> (graph: &Graph<(i64, i64), u64, Undirected, u32>)
        ensures
            graph_nodes(*graph).len() == self.roadmap.nodes().len(),
            forall|i: int|
                0 <= i < self.roadmap.nodes().len() ==> point_of(#[trigger] graph_nodes(*graph)[i])
                    == self.roadmap.nodes()[i],
            graph_edges(*graph) == self.roadmap.edges(),
    {
        self.roadmap.get_graph()
    }
}

impl Default for PRMstar<NaiveCollisionChecker, DefaultOptimizer> {
    /// A planner in an empty world three units wide and high, from one
    /// corner to the opposite one.
    fn default() -> (planner: Self)
        ensures
            planner.wf(),
            !planner.is_solved,
            planner.solution is None,
            planner.config.default_nearest_neighbors == 10,
            planner.config.max_size == 32,
            planner.start == (Point { x: 0, y: 0 }),
            planner.goal.x == 3 * COORDINATE_ONE,
            planner.goal.y == 3 * COORDINATE_ONE,
            planner.boundaries.x_lower == 0,
            planner.boundaries.x_upper == 3 * COORDINATE_ONE,
            planner.boundaries.y_lower == 0,
            planner.boundaries.y_upper == 3 * COORDINATE_ONE,
            planner.roadmap.nodes() == Seq::<Point>::empty(),
            planner.roadmap.edges() == Seq::<(usize, usize, u64)>::empty(),
    {
        let start: Point = Point { x: 0, y: 0 };
        let goal: Point = Point { x: 3 * COORDINATE_ONE, y: 3 * COORDINATE_ONE };
        let bounds: Boundaries = Boundaries::new(0, 3 * COORDINATE_ONE, 0, 3 * COORDINATE_ONE);
        let optimizer: DefaultOptimizer = DefaultOptimizer { phantom: PhantomData };
        let cc: NaiveCollisionChecker = NaiveCollisionChecker { phantom: PhantomData };
        PRMstar::new(start, goal, bounds, optimizer, cc)
    }
}

} // verus!
