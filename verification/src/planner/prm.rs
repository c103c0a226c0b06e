//! The planner that grows a probabilistic roadmap.
use vstd::prelude::*;
use std::marker::PhantomData;
use petgraph::graph::Graph;
use petgraph::Undirected;
use crate::boundaries::Boundaries;
use crate::collision_checker::{CollisionChecker, NaiveCollisionChecker};
use crate::optimizer::{DefaultOptimizer, Optimizer};
use crate::planner::base_planner::Planner;
use crate::planner::connect::{
    add_free_node, admits, answer, connect_node, grown, is_answer, joined_exactly,
    joined_to_nearest,
    lemma_grown_twice, lemma_joined_grows, lemma_taken_none, lemma_taken_one_more, taken_in_turn,
};
use crate::planner::graph_utils::{graph_edges, graph_nodes, GRAPH_CAPACITY};
use crate::planner::roadmap::{holds, point_of, Roadmap};
use crate::planner::termination::BaseTerminationCriteria;
use crate::space::Point;
use crate::types::{largest_cost, COORDINATE_DEFAULT};

verus! {

/// How far a planner reaches and when it stops.
pub struct Config {
    /// How many of its nearest neighbours a new node is connected to.
    pub default_nearest_neighbors: u8,
    /// The number of nodes from which the planner stops.
    pub max_size: usize,
}

impl Default for Config {
    /// Ten neighbours, thirty-two nodes.
    fn default() -> (config: Self)
        ensures
            config.default_nearest_neighbors == 10,
            config.max_size == 32,
    {
        Config { default_nearest_neighbors: 10u8, max_size: 32usize }
    }
}

/// How many nodes one batch adds.
pub const BATCH_SIZE: usize = 8;

/// Whether `after` is what the edges `before` may become when each of
/// `added` in turn is joined to its `k` nearest nodes.
pub open spec fn batch_joined<C: CollisionChecker, O: Optimizer>(
    before: Seq<(usize, usize, u64)>,
    nodes: Seq<Point>,
    added: Seq<Point>,
    k: usize,
    checker: C,
    optimizer: O,
    after: Seq<(usize, usize, u64)>,
) -> bool
    decreases added.len(),
{
    if added.len() == 0 {
        after == before
    } else {
        exists|between: Seq<(usize, usize, u64)>|
            batch_joined(before, nodes, added.drop_last(), k, checker, optimizer, between)
                && joined_to_nearest(between, nodes, added.last(), k, checker, optimizer, after)
    }
}

/// Joining a batch of nodes to their nearest nodes adds nothing but free
/// edges at the optimizer's price.
pub proof fn lemma_batch_grows<C: CollisionChecker, O: Optimizer>(
    before: Seq<(usize, usize, u64)>,
    nodes: Seq<Point>,
    added: Seq<Point>,
    k: usize,
    checker: C,
    optimizer: O,
    after: Seq<(usize, usize, u64)>,
)
    requires
        batch_joined(before, nodes, added, k, checker, optimizer, after),
    ensures
        grown(before, after, nodes, checker, optimizer),
    decreases added.len(),
{
    if added.len() > 0 {
        let between = choose|between: Seq<(usize, usize, u64)>|
            batch_joined(before, nodes, added.drop_last(), k, checker, optimizer, between)
                && joined_to_nearest(between, nodes, added.last(), k, checker, optimizer, after);
        lemma_batch_grows(before, nodes, added.drop_last(), k, checker, optimizer, between);
        lemma_joined_grows(between, nodes, added.last(), k, checker, optimizer, after);
        lemma_grown_twice(before, between, after, nodes, nodes, checker, optimizer);
    }
}

/// A probabilistic roadmap: configurations sampled at random inside the
/// boundaries, each joined to its nearest neighbours where the straight
/// connection is free. The start and the goal are nodes like any other, so
/// one roadmap serves any number of queries.
pub struct PRM<C: CollisionChecker, O: Optimizer> {
    pub start: Point,
    pub goal: Point,
    pub boundaries: Boundaries,
    pub roadmap: Roadmap,
    pub solution: Option<(u64, Vec<usize>)>,
    pub optimizer: O,
    pub is_solved: bool,
    pub collision_checker: C,
    pub config: Config,
}

impl<C: CollisionChecker, O: Optimizer> Planner for PRM<C, O> {
    type Checker = C;

    open spec fn wf(&self) -> bool {
        &&& self.roadmap.wf()
        &&& self.is_solved == (self.solution is Some)
        &&& match self.solution {
            Some((_, path)) => forall|i: int|
                0 <= i < path.len() ==> (#[trigger] path[i]) < self.roadmap.nodes().len(),
            None => true,
        }
    }

    open spec fn start(&self) -> Point {
        self.start
    }

    open spec fn goal(&self) -> Point {
        self.goal
    }

    open spec fn limits(&self) -> Boundaries {
        self.boundaries
    }

    open spec fn checker(&self) -> C {
        self.collision_checker
    }

    open spec fn nodes(&self) -> Seq<Point> {
        self.roadmap.nodes()
    }

    open spec fn edges(&self) -> Seq<(usize, usize, u64)> {
        self.roadmap.edges()
    }

    open spec fn max_size(&self) -> usize {
        self.config.max_size
    }

    open spec fn solution(&self) -> Option<(u64, Vec<usize>)> {
        self.solution
    }

    open spec fn may_reject(&self, sample: Point) -> bool {
        !admits(self.roadmap.nodes(), sample, self.collision_checker)
    }

    fn set_start(&mut self, start: Point)
        ensures
            final(self).optimizer == old(self).optimizer,
            final(self).config == old(self).config,
    {
        self.start = start;
    }

    fn set_goal(&mut self, goal: Point)
        ensures
            final(self).optimizer == old(self).optimizer,
            final(self).config == old(self).config,
    {
        self.goal = goal;
    }

    fn set_boundaries(&mut self, boundaries: Boundaries)
        ensures
            final(self).optimizer == old(self).optimizer,
            final(self).config == old(self).config,
    {
        self.boundaries = boundaries;
    }

    fn set_collision_checker(&mut self, cc: C)
        ensures
            final(self).optimizer == old(self).optimizer,
            final(self).config == old(self).config,
    {
        self.collision_checker = cc;
    }

    fn can_init(&self) -> (valid: bool) {
        self.boundaries.is_in_range() && self.boundaries.is_node_inside(&self.start)
            && self.boundaries.is_node_inside(&self.goal)
            && !self.collision_checker.is_node_colliding(&self.start)
            && !self.collision_checker.is_node_colliding(&self.goal) && self.roadmap.node_count()
            <= GRAPH_CAPACITY - 2
    }

    fn init(&mut self)
        ensures
            final(self).optimizer == old(self).optimizer,
            final(self).config == old(self).config,
            final(self).is_solved == old(self).is_solved,
            holds(final(self).roadmap.nodes(), final(self).start),
            holds(final(self).roadmap.nodes(), final(self).goal),
    {
        let _ = self.roadmap.insert_node(self.start);
        proof {
            let nodes = self.roadmap.nodes();
            let at = choose|at: int| 0 <= at < nodes.len() && nodes[at] == self.start;
            assert(nodes[at] == self.start);
        }
        let ghost with_start = self.roadmap.nodes();
        let _ = self.roadmap.insert_node(self.goal);
        proof {
            let nodes = self.roadmap.nodes();
            let at = choose|at: int| 0 <= at < with_start.len() && with_start[at] == self.start;
            assert(nodes[at] == self.start);
        }
    }

    fn solve(&mut self, max_samples: usize) -> (done: bool)
        ensures
            final(self).optimizer == old(self).optimizer,
            final(self).config == old(self).config,
            exists|added: Seq<Point>|
                final(self).roadmap.nodes() == old(self).roadmap.nodes() + added && taken_in_turn(
                    old(self).roadmap.nodes(),
                    old(self).roadmap.edges(),
                    added,
                    old(self).config.default_nearest_neighbors as usize,
                    old(self).collision_checker,
                    old(self).optimizer,
                    final(self).roadmap.edges(),
                ),
            grown(
                old(self).roadmap.edges(),
                final(self).roadmap.edges(),
                final(self).roadmap.nodes(),
                final(self).collision_checker,
                final(self).optimizer,
            ),
    {
        let mut left: usize = max_samples;
        let ghost added: Seq<Point> = Seq::empty();
        let ghost rejected: Point = self.start;
        proof {
            assert(self.roadmap.nodes().is_prefix_of(self.roadmap.nodes()));
            assert(self.roadmap.nodes() =~= old(self).roadmap.nodes() + added);
            lemma_taken_none(
                old(self).roadmap.nodes(),
                old(self).roadmap.edges(),
                old(self).config.default_nearest_neighbors as usize,
                old(self).collision_checker,
                old(self).optimizer,
            );
        }
        while left > 0
            invariant
                self.wf(),
                self.roadmap.nodes() == old(self).roadmap.nodes() + added,
                taken_in_turn(
                    old(self).roadmap.nodes(),
                    old(self).roadmap.edges(),
                    added,
                    old(self).config.default_nearest_neighbors as usize,
                    old(self).collision_checker,
                    old(self).optimizer,
                    self.roadmap.edges(),
                ),
                self.start == old(self).start,
                self.goal == old(self).goal,
                self.collision_checker == old(self).collision_checker,
                self.optimizer == old(self).optimizer,
                self.config == old(self).config,
                self.boundaries.same_limits(old(self).boundaries),
                old(self).roadmap.nodes().is_prefix_of(self.roadmap.nodes()),
                self.roadmap.nodes().len() + left <= old(self).roadmap.nodes().len() + max_samples,
                self.roadmap.nodes().len() < self.config.max_size || self.roadmap.nodes() == old(
                    self,
                ).roadmap.nodes(),
                added.len() > 0 ==> is_answer(
                    self.roadmap.nodes(),
                    self.roadmap.edges(),
                    self.start,
                    self.goal,
                    self.solution,
                ),
                added.len() == 0 ==> self.roadmap.edges() == old(self).roadmap.edges()
                    && self.solution == old(self).solution,
                added.len() == 0 && left < max_samples ==> old(self).boundaries.may_draw(rejected)
                    && old(self).may_reject(rejected),
                grown(
                    old(self).roadmap.edges(),
                    self.roadmap.edges(),
                    self.roadmap.nodes(),
                    self.collision_checker,
                    self.optimizer,
                ),
            decreases left,
        {
            let ghost nodes_before = self.roadmap.nodes();
            let ghost edges_before = self.roadmap.edges();
            match self.add_random_node(&mut left) {
                Some(added_node) => {
                    self.connect_node_to_graph(added_node);
                    self.check_solution();
                    proof {
                        let longer = added.push(added_node);
                        assert(self.roadmap.nodes() =~= old(self).roadmap.nodes() + longer);
                        lemma_taken_one_more(
                            old(self).roadmap.nodes(),
                            old(self).roadmap.edges(),
                            added,
                            added_node,
                            old(self).config.default_nearest_neighbors as usize,
                            old(self).collision_checker,
                            old(self).optimizer,
                            edges_before,
                            self.roadmap.edges(),
                        );
                        added = longer;
                        lemma_joined_grows(
                            edges_before,
                            self.roadmap.nodes(),
                            added_node,
                            self.config.default_nearest_neighbors as usize,
                            self.collision_checker,
                            self.optimizer,
                            self.roadmap.edges(),
                        );
                        lemma_grown_twice(
                            old(self).roadmap.edges(),
                            edges_before,
                            self.roadmap.edges(),
                            nodes_before,
                            self.roadmap.nodes(),
                            self.collision_checker,
                            self.optimizer,
                        );
                    }
                    if self.is_termination_criteria_met() {
                        return true;
                    }
                },
                None => {
                    proof {
                        if added.len() == 0 {
                            rejected = choose|sample: Point|
                                old(self).boundaries.may_draw(sample) && !(#[trigger] admits(
                                    nodes_before,
                                    sample,
                                    old(self).collision_checker,
                                ));
                        }
                    }
                },
            }
        }
        proof {
            if added.len() == 0 && max_samples > 0 {
                assert(old(self).limits().may_draw(rejected) && old(self).may_reject(rejected));
            }
        }
        false
    }

    fn get_solution_cost(&self) -> (cost: u64) {
        match &self.solution {
            None => largest_cost(),
            Some((cost, _)) => *cost,
        }
    }

    fn is_solved(&self) -> (solved: bool) {
        self.solution.is_some()
    }

    fn get_solution_path(&self) -> (path: Vec<Point>) {
        let mut path: Vec<Point> = Vec::new();
        match &self.solution {
            Some((_, ids)) => {
                let mut at: usize = 0;
                while at < ids.len()
                    invariant
                        self.wf(),
                        self.solution matches Some((_, all)) && all == *ids,
                        0 <= at <= ids.len(),
                        path.len() == at,
                        forall|i: int|
                            0 <= i < at ==> #[trigger] path[i] == self.roadmap.nodes()[ids[i] as int],
                    decreases ids.len() - at,
                {
                    match self.roadmap.node(ids[at]) {
                        Some(p) => {
                            path.push(p);
                        },
                        None => {
                            assert(false);
                        },
                    }
                    at = at + 1;
                }
            },
            None => {},
        }
        path
    }
}

impl<C: CollisionChecker> PRM<C, DefaultOptimizer> {
    /// A planner that consults `collision_checker` and prices connections
    /// at their length: no nodes, default start, goal, boundaries and
    /// configuration.
    pub fn new(collision_checker: C) -> (planner: Self)
        ensures
            planner.wf(),
            planner.collision_checker == collision_checker,
            planner.roadmap.nodes() == Seq::<Point>::empty(),
            planner.roadmap.edges() == Seq::<(usize, usize, u64)>::empty(),
            planner.solution is None,
            !planner.is_solved,
            planner.config.default_nearest_neighbors == 10,
            planner.config.max_size == 32,
            planner.start == (Point { x: COORDINATE_DEFAULT, y: COORDINATE_DEFAULT }),
            planner.goal == (Point { x: COORDINATE_DEFAULT, y: COORDINATE_DEFAULT }),
            planner.boundaries.default_limits(),
    {
        PRM::with_optimizer(collision_checker, DefaultOptimizer { phantom: PhantomData })
    }
}

impl<C: CollisionChecker, O: Optimizer> PRM<C, O> {
    /// A planner that consults `collision_checker` and prices connections
    /// as `optimizer` does: no nodes, default start, goal, boundaries and
    /// configuration.
    pub fn with_optimizer(collision_checker: C, optimizer: O) -> (planner: Self)
        ensures
            planner.wf(),
            planner.collision_checker == collision_checker,
            planner.optimizer == optimizer,
            planner.roadmap.nodes() == Seq::<Point>::empty(),
            planner.roadmap.edges() == Seq::<(usize, usize, u64)>::empty(),
            planner.solution is None,
            !planner.is_solved,
            planner.config.default_nearest_neighbors == 10,
            planner.config.max_size == 32,
            planner.start == (Point { x: COORDINATE_DEFAULT, y: COORDINATE_DEFAULT }),
            planner.goal == (Point { x: COORDINATE_DEFAULT, y: COORDINATE_DEFAULT }),
            planner.boundaries.default_limits(),
    {
        PRM {
            start: Point::default(),
            goal: Point::default(),
            boundaries: Boundaries::default(),
            roadmap: Roadmap::new(),
            solution: None,
            optimizer,
            is_solved: false,
            collision_checker,
            config: Config::default(),
        }
    }

    /// Whether this planner differs from `other` in its roadmap and its
    /// answer at most.
    pub open spec fn same_setting(&self, other: &Self) -> bool {
        &&& self.start == other.start
        &&& self.goal == other.goal
        &&& self.collision_checker == other.collision_checker
        &&& self.optimizer == other.optimizer
        &&& self.config == other.config
        &&& self.boundaries.same_limits(other.boundaries)
    }

    /// Makes `node` a node of the roadmap, with the lookup and the spatial
    /// index in step, unless it is obstructed, out of range or a node
    /// already, or the graph is full. Says whether it did.
    pub fn add_node(&mut self, node: Point) -> (added: bool)
        requires
            old(self).wf(),
        ensures
            final(self).wf(),
            final(self).same_setting(old(self)),
            final(self).boundaries == old(self).boundaries,
            final(self).solution == old(self).solution,
            final(self).is_solved == old(self).is_solved,
            final(self).roadmap.edges() == old(self).roadmap.edges(),
            added == admits(old(self).roadmap.nodes(), node, old(self).collision_checker),
            final(self).roadmap.nodes() == if added {
                old(self).roadmap.nodes().push(node)
            } else {
                old(self).roadmap.nodes()
            },
    {
        add_free_node(&mut self.roadmap, &self.collision_checker, node)
    }

    /// Draws samples until the roadmap takes one as a new node, and
    /// returns that one; each draw takes one off `left`, and with none left
    /// it gives up. Every draw but the one returned was of a configuration
    /// that the roadmap did not admit.
    pub fn add_random_node(&mut self, left: &mut usize) -> (added: Option<Point>)
        requires
            old(self).wf(),
        ensures
            final(self).wf(),
            final(self).same_setting(old(self)),
            final(self).solution == old(self).solution,
            final(self).is_solved == old(self).is_solved,
            final(self).roadmap.edges() == old(self).roadmap.edges(),
            *final(left) <= *old(left),
            match added {
                Some(node) => {
                    &&& old(self).boundaries.may_draw(node)
                    &&& admits(old(self).roadmap.nodes(), node, old(self).collision_checker)
                    &&& final(self).roadmap.nodes() == old(self).roadmap.nodes().push(node)
                    &&& *final(left) < *old(left)
                },
                None => final(self).roadmap.nodes() == old(self).roadmap.nodes() && *final(left) == 0,
            },
            *old(left) - *final(left) > (if added is Some {
                1int
            } else {
                0int
            }) ==> exists|sample: Point|
                old(self).boundaries.may_draw(sample) && !(#[trigger] admits(
                    old(self).roadmap.nodes(),
                    sample,
                    old(self).collision_checker,
                )),
    {
        let ghost rejected: Point = self.start;
        while *left > 0
            invariant
                self.wf(),
                self.same_setting(old(self)),
                self.solution == old(self).solution,
                self.is_solved == old(self).is_solved,
                self.roadmap.edges() == old(self).roadmap.edges(),
                self.roadmap.nodes() == old(self).roadmap.nodes(),
                *left <= *old(left),
                *left < *old(left) ==> old(self).boundaries.may_draw(rejected) && !admits(
                    old(self).roadmap.nodes(),
                    rejected,
                    old(self).collision_checker,
                ),
            decreases *left,
        {
            *left = *left - 1;
            let candidate: Point = self.boundaries.generate_random_configuration();
            if self.add_node(candidate) {
                return Some(candidate);
            }
            proof {
                rejected = candidate;
            }
        }
        None
    }

    /// Joins `node` to its nearest neighbours, as many as the
    /// configuration says: to each of them that is another node, not joined
    /// to it yet, and reached by a free straight connection, by an edge at
    /// the optimizer's price. Doing so again, with no node put in in
    /// between, adds nothing.
    pub fn connect_node_to_graph(&mut self, node: Point)
        requires
            old(self).wf(),
        ensures
            final(self).wf(),
            final(self).same_setting(old(self)),
            final(self).boundaries == old(self).boundaries,
            final(self).solution == old(self).solution,
            final(self).is_solved == old(self).is_solved,
            final(self).roadmap.nodes() == old(self).roadmap.nodes(),
            joined_to_nearest(
                old(self).roadmap.edges(),
                old(self).roadmap.nodes(),
                node,
                old(self).config.default_nearest_neighbors as usize,
                old(self).collision_checker,
                old(self).optimizer,
                final(self).roadmap.edges(),
            ),
            final(self).roadmap.edges() == joined_exactly(
                old(self).roadmap,
                node,
                old(self).config.default_nearest_neighbors as usize,
                old(self).collision_checker,
                old(self).optimizer,
            ),
            forall|p: Point, j: usize| #[trigger]
                final(self).roadmap.neighbours(p, j) == old(self).roadmap.neighbours(p, j),
    {
        connect_node(
            &mut self.roadmap,
            &self.collision_checker,
            &self.optimizer,
            node,
            self.config.default_nearest_neighbors as usize,
        );
    }

    /// Adds new nodes from random samples until a batch is full or no
    /// sample is left, and returns them in the order they were added. Each
    /// was drawn from the boundaries and admitted by the roadmap as it then
    /// stood; where more samples were drawn than nodes added, a draw was of
    /// a configuration that the roadmap, at some stage, did not admit.
    pub fn add_batch_of_random_nodes(&mut self, left: &mut usize) -> (added: Vec<Point>)
        requires
            old(self).wf(),
        ensures
            final(self).wf(),
            final(self).same_setting(old(self)),
            final(self).solution == old(self).solution,
            final(self).is_solved == old(self).is_solved,
            final(self).roadmap.edges() == old(self).roadmap.edges(),
            final(self).roadmap.nodes() == old(self).roadmap.nodes() + added@,
            added.len() <= BATCH_SIZE,
            added.len() < BATCH_SIZE ==> *final(left) == 0,
            *final(left) + added.len() <= *old(left),
            forall|i: int|
                0 <= i < added.len() ==> old(self).boundaries.may_draw(#[trigger] added[i]) && admits(
                    old(self).roadmap.nodes() + added@.take(i),
                    added[i],
                    old(self).collision_checker,
                ),
            *final(left) + added.len() < *old(left) ==> exists|at: int, sample: Point|
                0 <= at <= added.len() && old(self).boundaries.may_draw(sample) && !(#[trigger] admits(
                    old(self).roadmap.nodes() + added@.take(at),
                    sample,
                    old(self).collision_checker,
                )),
            *old(left) > 0 && added.len() == 0 ==> exists|sample: Point|
                old(self).boundaries.may_draw(sample) && !(#[trigger] admits(
                    old(self).roadmap.nodes(),
                    sample,
                    old(self).collision_checker,
                )),
    {
        let mut list_of_added_nodes: Vec<Point> = Vec::new();
        let ghost stage: int = 0;
        let ghost rejected: Point = self.start;
        proof {
            assert(self.roadmap.nodes() =~= old(self).roadmap.nodes() + list_of_added_nodes@);
        }
        while list_of_added_nodes.len() < BATCH_SIZE
            invariant
                self.wf(),
                self.same_setting(old(self)),
                self.solution == old(self).solution,
                self.is_solved == old(self).is_solved,
                self.roadmap.edges() == old(self).roadmap.edges(),
                self.roadmap.nodes() == old(self).roadmap.nodes() + list_of_added_nodes@,
                list_of_added_nodes.len() <= BATCH_SIZE,
                *left + list_of_added_nodes.len() <= *old(left),
                forall|i: int|
                    0 <= i < list_of_added_nodes.len() ==> old(self).boundaries.may_draw(
                        #[trigger] list_of_added_nodes[i],
                    ) && admits(
                        old(self).roadmap.nodes() + list_of_added_nodes@.take(i),
                        list_of_added_nodes[i],
                        old(self).collision_checker,
                    ),
                *left + list_of_added_nodes.len() < *old(left) ==> 0 <= stage
                    <= list_of_added_nodes.len() && old(self).boundaries.may_draw(rejected) && !admits(
                    old(self).roadmap.nodes() + list_of_added_nodes@.take(stage),
                    rejected,
                    old(self).collision_checker,
                ),
            decreases *left + (BATCH_SIZE - list_of_added_nodes.len()),
        {
            let ghost so_far = list_of_added_nodes@;
            let ghost nodes_before = self.roadmap.nodes();
            let ghost left_before = *left;
            let ghost had_one = *left + list_of_added_nodes.len() < *old(left);
            let found = self.add_random_node(left);
            proof {
                assert(so_far.take(so_far.len() as int) =~= so_far);
                if !had_one && left_before - *left > (if found is Some {
                    1int
                } else {
                    0int
                }) {
                    rejected = choose|sample: Point|
                        old(self).boundaries.may_draw(sample) && !(#[trigger] admits(
                            nodes_before,
                            sample,
                            old(self).collision_checker,
                        ));
                    stage = so_far.len() as int;
                }
            }
            match found {
                Some(node) => {
                    list_of_added_nodes.push(node);
                    proof {
                        assert(self.roadmap.nodes() =~= old(self).roadmap.nodes()
                            + list_of_added_nodes@);
                        assert(list_of_added_nodes@.take(so_far.len() as int) =~= so_far);
                        assert forall|i: int| 0 <= i < list_of_added_nodes.len() implies old(
                            self,
                        ).boundaries.may_draw(#[trigger] list_of_added_nodes[i]) && admits(
                            old(self).roadmap.nodes() + list_of_added_nodes@.take(i),
                            list_of_added_nodes[i],
                            old(self).collision_checker,
                        ) by {
                            if i < so_far.len() {
                                assert(list_of_added_nodes@.take(i) =~= so_far.take(i));
                                assert(list_of_added_nodes[i] == so_far[i]);
                            }
                        }
                        if *left + list_of_added_nodes.len() < *old(left) {
                            assert(list_of_added_nodes@.take(stage) =~= so_far.take(stage));
                        }
                    }
                },
                None => {
                    proof {
                        if *old(left) > 0 && list_of_added_nodes.len() == 0 {
                            assert(old(self).roadmap.nodes() + so_far.take(stage) =~= old(
                                self,
                            ).roadmap.nodes());
                        }
                    }
                    return list_of_added_nodes;
                },
            }
        }
        list_of_added_nodes
    }

    /// Joins each of `added_nodes` in turn to its nearest neighbours, as
    /// `connect_node_to_graph` does.
    pub fn connect_added_nodes_to_graph(&mut self, added_nodes: &Vec<Point>)
        requires
            old(self).wf(),
        ensures
            final(self).wf(),
            final(self).same_setting(old(self)),
            final(self).boundaries == old(self).boundaries,
            final(self).solution == old(self).solution,
            final(self).is_solved == old(self).is_solved,
            final(self).roadmap.nodes() == old(self).roadmap.nodes(),
            batch_joined(
                old(self).roadmap.edges(),
                old(self).roadmap.nodes(),
                added_nodes@,
                old(self).config.default_nearest_neighbors as usize,
                old(self).collision_checker,
                old(self).optimizer,
                final(self).roadmap.edges(),
            ),
    {
        let mut at: usize = 0;
        proof {
            assert(added_nodes@.take(0).len() == 0);
        }
        while at < added_nodes.len()
            invariant
                self.wf(),
                self.same_setting(old(self)),
                self.boundaries == old(self).boundaries,
                self.solution == old(self).solution,
                self.is_solved == old(self).is_solved,
                self.roadmap.nodes() == old(self).roadmap.nodes(),
                0 <= at <= added_nodes.len(),
                batch_joined(
                    old(self).roadmap.edges(),
                    old(self).roadmap.nodes(),
                    added_nodes@.take(at as int),
                    old(self).config.default_nearest_neighbors as usize,
                    old(self).collision_checker,
                    old(self).optimizer,
                    self.roadmap.edges(),
                ),
            decreases added_nodes.len() - at,
        {
            let ghost between = self.roadmap.edges();
            self.connect_node_to_graph(added_nodes[at]);
            proof {
                let upto = added_nodes@.take(at as int + 1);
                assert(upto.drop_last() =~= added_nodes@.take(at as int));
                assert(upto.last() == added_nodes[at as int]);
                assert(batch_joined(
                    old(self).roadmap.edges(),
                    old(self).roadmap.nodes(),
                    upto.drop_last(),
                    old(self).config.default_nearest_neighbors as usize,
                    old(self).collision_checker,
                    old(self).optimizer,
                    between,
                ) && joined_to_nearest(
                    between,
                    old(self).roadmap.nodes(),
                    upto.last(),
                    old(self).config.default_nearest_neighbors as usize,
                    old(self).collision_checker,
                    old(self).optimizer,
                    self.roadmap.edges(),
                ));
            }
            at = at + 1;
        }
        proof {
            assert(added_nodes@.take(at as int) =~= added_nodes@);
        }
    }

    /// One round of batch growth: adds a batch of new nodes from at most
    /// `max_samples` random samples, joins each of them to its nearest
    /// neighbours, searches afresh for the cheapest path, and says whether
    /// there is one. Each new node was drawn from the boundaries and
    /// admitted by the roadmap as it then stood. A batch that is not full,
    /// and smaller than the number of samples, comes only after a draw was
    /// of a configuration that the roadmap, at some stage, did not admit.
    pub fn run(&mut self, max_samples: usize) -> (solved: bool)
        requires
            old(self).wf(),
        ensures
            final(self).wf(),
            final(self).same_setting(old(self)),
            old(self).roadmap.nodes().is_prefix_of(final(self).roadmap.nodes()),
            final(self).roadmap.nodes().len() <= old(self).roadmap.nodes().len() + BATCH_SIZE,
            final(self).roadmap.nodes().len() <= old(self).roadmap.nodes().len() + max_samples,
            exists|added: Seq<Point>|
                final(self).roadmap.nodes() == old(self).roadmap.nodes() + added && batch_joined(
                    old(self).roadmap.edges(),
                    final(self).roadmap.nodes(),
                    added,
                    old(self).config.default_nearest_neighbors as usize,
                    old(self).collision_checker,
                    old(self).optimizer,
                    final(self).roadmap.edges(),
                ),
            grown(
                old(self).roadmap.edges(),
                final(self).roadmap.edges(),
                final(self).roadmap.nodes(),
                final(self).collision_checker,
                final(self).optimizer,
            ),
            is_answer(
                final(self).roadmap.nodes(),
                final(self).roadmap.edges(),
                final(self).start,
                final(self).goal,
                final(self).solution,
            ),
            solved == (final(self).solution is Some),
            forall|j: int|
                old(self).roadmap.nodes().len() <= j < final(self).roadmap.nodes().len() ==> old(
                    self,
                ).boundaries.may_draw(#[trigger] final(self).roadmap.nodes()[j]) && admits(
                    final(self).roadmap.nodes().take(j),
                    final(self).roadmap.nodes()[j],
                    old(self).collision_checker,
                ),
            final(self).roadmap.nodes().len() < old(self).roadmap.nodes().len() + BATCH_SIZE
                && final(self).roadmap.nodes().len() < old(self).roadmap.nodes().len() + max_samples
                ==> exists|j: int, sample: Point|
                old(self).roadmap.nodes().len() <= j <= final(self).roadmap.nodes().len() && old(
                    self,
                ).boundaries.may_draw(sample) && !(#[trigger] admits(
                    final(self).roadmap.nodes().take(j),
                    sample,
                    old(self).collision_checker,
                )),
            max_samples > 0 && final(self).roadmap.nodes() == old(self).roadmap.nodes()
                ==> exists|sample: Point|
                old(self).boundaries.may_draw(sample) && !(#[trigger] admits(
                    old(self).roadmap.nodes(),
                    sample,
                    old(self).collision_checker,
                )),
    {
        let mut left: usize = max_samples;
        let added_nodes: Vec<Point> = self.add_batch_of_random_nodes(&mut left);
        proof {
            let nodes = self.roadmap.nodes();
            let before = old(self).roadmap.nodes();
            assert forall|j: int| before.len() <= j < nodes.len() implies old(
                self,
            ).boundaries.may_draw(#[trigger] nodes[j]) && admits(
                nodes.take(j),
                nodes[j],
                old(self).collision_checker,
            ) by {
                let i = j - before.len();
                assert(nodes[j] == added_nodes[i]);
                assert(nodes.take(j) =~= before + added_nodes@.take(i));
            }
            if nodes.len() < before.len() + BATCH_SIZE && nodes.len() < before.len() + max_samples {
                let (at, sample) = choose|at: int, sample: Point|
                    0 <= at <= added_nodes.len() && old(self).boundaries.may_draw(sample) && !(
                    #[trigger] admits(
                        before + added_nodes@.take(at),
                        sample,
                        old(self).collision_checker,
                    ));
                let j = before.len() + at;
                assert(nodes.take(j) =~= before + added_nodes@.take(at));
                assert(before.len() <= j <= nodes.len() && old(self).boundaries.may_draw(sample)
                    && !admits(nodes.take(j), sample, old(self).collision_checker));
            }
            if max_samples > 0 && nodes == before {
                assert(added_nodes.len() == 0);
            }
        }
        self.connect_added_nodes_to_graph(&added_nodes);
        proof {
            lemma_batch_grows(
                old(self).roadmap.edges(),
                self.roadmap.nodes(),
                added_nodes@,
                self.config.default_nearest_neighbors as usize,
                self.collision_checker,
                self.optimizer,
                self.roadmap.edges(),
            );
            assert(self.roadmap.nodes() == old(self).roadmap.nodes() + added_nodes@
                && batch_joined(
                old(self).roadmap.edges(),
                self.roadmap.nodes(),
                added_nodes@,
                old(self).config.default_nearest_neighbors as usize,
                old(self).collision_checker,
                old(self).optimizer,
                self.roadmap.edges(),
            ));
        }
        self.check_solution();
        self.is_solved
    }

    /// Searches the roadmap afresh for a cheapest path from the start to
    /// the goal and keeps what it finds as the answer.
    pub fn check_solution(&mut self)
        requires
            old(self).roadmap.wf(),
        ensures
            final(self).wf(),
            final(self).same_setting(old(self)),
            final(self).boundaries == old(self).boundaries,
            final(self).roadmap == old(self).roadmap,
            is_answer(
                final(self).roadmap.nodes(),
                final(self).roadmap.edges(),
                final(self).start,
                final(self).goal,
                final(self).solution,
            ),
    {
        self.solution = answer(&self.roadmap, &self.start, &self.goal);
        self.is_solved = self.solution.is_some();
    }

    /// Whether the roadmap has reached the size at which the planner
    /// stops.
    pub fn is_termination_criteria_met(&self) -> (met: bool)
        ensures
            met == (self.roadmap.nodes().len() >= self.config.max_size),
    {
        BaseTerminationCriteria::new(self.config.max_size).is_met(self.roadmap.node_count())
    }

    /// The graph of the roadmap, for a reader that writes it out.
    pub fn get_graph(&self) -> (graph: &Graph<(i64, i64), u64, Undirected, u32>)
        ensures
            graph_nodes(*graph).len() == self.roadmap.nodes().len(),
            forall|i: int|
                0 <= i < self.roadmap.nodes().len() ==> point_of(#[trigger] graph_nodes(*graph)[i])
                    == self.roadmap.nodes()[i],
            graph_edges(*graph) == self.roadmap.edges(),
    {
        self.roadmap.get_graph()
    }
}

impl Default for PRM<NaiveCollisionChecker, DefaultOptimizer> {
    /// A planner in an empty world.
    fn default() -> (planner: Self)
        ensures
            planner.wf(),
            !planner.is_solved,
            planner.solution is None,
            planner.roadmap.nodes() == Seq::<Point>::empty(),
            planner.roadmap.edges() == Seq::<(usize, usize, u64)>::empty(),
            planner.config.default_nearest_neighbors == 10,
            planner.config.max_size == 32,
            planner.start == (Point { x: COORDINATE_DEFAULT, y: COORDINATE_DEFAULT }),
            planner.goal == (Point { x: COORDINATE_DEFAULT, y: COORDINATE_DEFAULT }),
            planner.boundaries.default_limits(),
    {
        PRM::new(NaiveCollisionChecker { phantom: PhantomData })
    }
}

} // verus!
