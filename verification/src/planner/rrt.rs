//! The planner that grows a rapidly-exploring random tree.
use vstd::prelude::*;
use std::marker::PhantomData;
use petgraph::graph::Graph;
use petgraph::Undirected;
use crate::boundaries::Boundaries;
use crate::collision_checker::{CollisionChecker, NaiveCollisionChecker};
use crate::optimizer::DefaultOptimizer;
use crate::planner::base_planner::Planner;
use crate::planner::connect::{
    admits, answer, connect_node, free_edge, grown, is_answer, joined_to_nearest, lemma_grown_twice,
    lemma_joined_grows,
};
use crate::planner::graph_utils::{graph_edges, graph_nodes, GRAPH_CAPACITY};
use crate::planner::roadmap::{holds, point_of, put_in, Roadmap};
use crate::planner::termination::BaseTerminationCriteria;
use crate::space::{distance, in_range, squared_distance, Point};
use crate::types::{largest_cost, COORDINATE_DEFAULT};

verus! {

/// How far a planner reaches and when it stops.
pub struct Config {
    /// How many of its nearest neighbours a new node is connected to.
    pub default_nearest_neighbors: u8,
    /// The number of nodes from which the planner stops.
    pub max_size: usize,
}

impl Default for Config {
    /// Ten neighbours, thirty-two nodes.
    fn default() -> (config: Self)
        ensures
            config.default_nearest_neighbors == 10,
            config.max_size == 32,
    {
        Config { default_nearest_neighbors: 10u8, max_size: 32usize }
    }
}

/// The optimizer that stands for the length a tree prices its edges at.
pub open spec fn by_length() -> DefaultOptimizer {
    DefaultOptimizer { phantom: PhantomData }
}

/// Whether no node of `nodes` is nearer to `p` than node `m`.
pub open spec fn is_nearest(nodes: Seq<Point>, p: Point, m: usize) -> bool {
    &&& m < nodes.len()
    &&& forall|i: int|
        0 <= i < nodes.len() ==> squared_distance(nodes[m as int], p) <= squared_distance(
            #[trigger] nodes[i],
            p,
        )
}

/// The nodes after a roadmap was asked to take `p`: with `p` behind them
/// if it is new, in range, and the graph has room.
pub open spec fn taken_up(nodes: Seq<Point>, p: Point) -> Seq<Point> {
    if holds(nodes, p) || !in_range(p) || nodes.len() >= GRAPH_CAPACITY {
        nodes
    } else {
        nodes.push(p)
    }
}

/// Whether `after` is what the edges `before` may become when the goal and
/// then the start are each joined to the node nearest to them, where the
/// straight connection is free.
pub open spec fn spliced<C: CollisionChecker>(
    before: Seq<(usize, usize, u64)>,
    nodes: Seq<Point>,
    start: Point,
    goal: Point,
    checker: C,
    after: Seq<(usize, usize, u64)>,
) -> bool {
    exists|between: Seq<(usize, usize, u64)>|
        joined_to_nearest(before, nodes, goal, 2, checker, by_length(), between)
            && joined_to_nearest(between, nodes, start, 2, checker, by_length(), after)
}

/// Whether a tree with `nodes` may reject `sample`: it does not admit the
/// sample as a new node, it has no node to join the sample to, or the
/// straight connection from the sample to a node nearest to it is
/// obstructed.
pub open spec fn turned_away<C: CollisionChecker>(nodes: Seq<Point>, sample: Point, checker: C) -> bool {
    ||| !admits(nodes, sample, checker)
    ||| nodes.len() == 0
    ||| exists|m: usize| is_nearest(nodes, sample, m) && checker.edge_blocked(sample, nodes[m as int])
}

/// Whether `after` is what the edges of a tree with `nodes` and `edges` may
/// become when it takes up `sample`: the tree admits the sample as a new
/// node; the straight connection from the sample to a node nearest to it is
/// free, and an edge as heavy as the two are far apart joins them, if the
/// graph has room; then the goal and the start are each joined to the node
/// nearest to them where that connection is free.
pub open spec fn sprouts<C: CollisionChecker>(
    nodes: Seq<Point>,
    edges: Seq<(usize, usize, u64)>,
    sample: Point,
    start: Point,
    goal: Point,
    checker: C,
    after: Seq<(usize, usize, u64)>,
) -> bool {
    &&& admits(nodes, sample, checker)
    &&& exists|m: usize|
        is_nearest(nodes, sample, m) && !checker.edge_blocked(sample, nodes[m as int]) && spliced(
            if edges.len() < GRAPH_CAPACITY {
                edges.push((nodes.len() as usize, m, distance(sample, nodes[m as int])))
            } else {
                edges
            },
            nodes.push(sample),
            start,
            goal,
            checker,
            after,
        )
}

/// Whether `stages` are the edges that a tree with `nodes` and `edges` may
/// have, one stage after the other, while it takes up each of `added` in
/// turn.
pub open spec fn tree_stages<C: CollisionChecker>(
    nodes: Seq<Point>,
    edges: Seq<(usize, usize, u64)>,
    added: Seq<Point>,
    start: Point,
    goal: Point,
    checker: C,
    stages: Seq<Seq<(usize, usize, u64)>>,
) -> bool {
    &&& stages.len() == added.len() + 1
    &&& stages[0] == edges
    &&& forall|at: int|
        0 <= at < added.len() ==> sprouts(
            nodes + added.take(at),
            #[trigger] stages[at],
            added[at],
            start,
            goal,
            checker,
            stages[at + 1],
        )
}

/// Whether `after` is what the edges of a tree with `nodes` and `edges` may
/// become when it takes up each of `added` in turn.
pub open spec fn sprouted_in_turn<C: CollisionChecker>(
    nodes: Seq<Point>,
    edges: Seq<(usize, usize, u64)>,
    added: Seq<Point>,
    start: Point,
    goal: Point,
    checker: C,
    after: Seq<(usize, usize, u64)>,
) -> bool {
    exists|stages: Seq<Seq<(usize, usize, u64)>>| #[trigger]
        tree_stages(nodes, edges, added, start, goal, checker, stages) && stages.last() == after
}

/// A tree that has taken up some samples in turn and takes up one more has
/// taken them all up in turn.
pub proof fn lemma_sprouted_one_more<C: CollisionChecker>(
    nodes: Seq<Point>,
    edges: Seq<(usize, usize, u64)>,
    added: Seq<Point>,
    sample: Point,
    start: Point,
    goal: Point,
    checker: C,
    between: Seq<(usize, usize, u64)>,
    after: Seq<(usize, usize, u64)>,
)
    requires
        sprouted_in_turn(nodes, edges, added, start, goal, checker, between),
        sprouts(nodes + added, between, sample, start, goal, checker, after),
    ensures
        sprouted_in_turn(nodes, edges, added.push(sample), start, goal, checker, after),
{
    let stages = choose|stages: Seq<Seq<(usize, usize, u64)>>| #[trigger]
        tree_stages(nodes, edges, added, start, goal, checker, stages) && stages.last() == between;
    let longer = added.push(sample);
    let more = stages.push(after);
    assert forall|at: int| 0 <= at < longer.len() implies sprouts(
        nodes + longer.take(at),
        #[trigger] more[at],
        longer[at],
        start,
        goal,
        checker,
        more[at + 1],
    ) by {
        assert(longer.take(at) =~= added.take(at));
        if at < added.len() {
            assert(sprouts(
                nodes + added.take(at),
                stages[at],
                added[at],
                start,
                goal,
                checker,
                stages[at + 1],
            ));
        } else {
            assert(added.take(at) =~= added);
            assert(more[at] == between);
        }
    }
    assert(tree_stages(nodes, edges, longer, start, goal, checker, more) && more.last() == after);
}

/// A tree that takes up nothing keeps its edges.
pub proof fn lemma_sprouted_none<C: CollisionChecker>(
    nodes: Seq<Point>,
    edges: Seq<(usize, usize, u64)>,
    start: Point,
    goal: Point,
    checker: C,
)
    ensures
        sprouted_in_turn(nodes, edges, Seq::<Point>::empty(), start, goal, checker, edges),
{
    let stages = seq![edges];
    assert(tree_stages(nodes, edges, Seq::<Point>::empty(), start, goal, checker, stages)
        && stages.last() == edges);
}

/// A rapidly-exploring random tree: each sample is joined to the node
/// nearest to it. The storage is a graph like any roadmap's and nothing
/// keeps it a tree: where several branches reach the start and the goal,
/// the search picks the cheapest way.
pub struct RRT<C: CollisionChecker> {
    pub solution: Option<(u64, Vec<usize>)>,
    pub is_solved: bool,
    pub start: Point,
    pub goal: Point,
    pub roadmap: Roadmap,
    pub boundaries: Boundaries,
    pub collision_checker: C,
    pub config: Config,
}

impl<C: CollisionChecker> Planner for RRT<C> {
    type Checker = C;

    open spec fn wf(&self) -> bool {
        &&& self.roadmap.wf()
        &&& self.is_solved == (self.solution is Some)
        &&& match self.solution {
            Some((_, path)) => forall|i: int|
                0 <= i < path.len() ==> (#[trigger] path[i]) < self.roadmap.nodes().len(),
            None => true,
        }
    }

    open spec fn start(&self) -> Point {
        self.start
    }

    open spec fn goal(&self) -> Point {
        self.goal
    }

    open spec fn limits(&self) -> Boundaries {
        self.boundaries
    }

    open spec fn checker(&self) -> C {
        self.collision_checker
    }

    open spec fn nodes(&self) -> Seq<Point> {
        self.roadmap.nodes()
    }

    open spec fn edges(&self) -> Seq<(usize, usize, u64)> {
        self.roadmap.edges()
    }

    open spec fn max_size(&self) -> usize {
        self.config.max_size
    }

    open spec fn solution(&self) -> Option<(u64, Vec<usize>)> {
        self.solution
    }

    open spec fn may_reject(&self, sample: Point) -> bool {
        turned_away(self.roadmap.nodes(), sample, self.collision_checker)
    }

    fn set_start(&mut self, start: Point)
        ensures
            final(self).config == old(self).config,
    {
        self.start = start;
    }

    fn set_goal(&mut self, goal: Point)
        ensures
            final(self).config == old(self).config,
    {
        self.goal = goal;
    }

    fn set_boundaries(&mut self, boundaries: Boundaries)
        ensures
            final(self).config == old(self).config,
    {
        self.boundaries = boundaries;
    }

    fn set_collision_checker(&mut self, cc: C)
        ensures
            final(self).config == old(self).config,
    {
        self.collision_checker = cc;
    }

    fn can_init(&self) -> (valid: bool) {
        self.boundaries.is_in_range() && self.boundaries.is_node_inside(&self.start)
            && self.boundaries.is_node_inside(&self.goal)
            && !self.collision_checker.is_node_colliding(&self.start)
            && !self.collision_checker.is_node_colliding(&self.goal) && self.roadmap.node_count()
            <= GRAPH_CAPACITY - 2
    }

    fn init(&mut self)
        ensures
            final(self).config == old(self).config,
            final(self).is_solved == old(self).is_solved,
            holds(final(self).roadmap.nodes(), final(self).start),
            holds(final(self).roadmap.nodes(), final(self).goal),
    {
        let _ = self.add_node(self.start);
        proof {
            let nodes = self.roadmap.nodes();
            let at = choose|at: int| 0 <= at < nodes.len() && nodes[at] == self.start;
            assert(nodes[at] == self.start);
        }
        let ghost with_start = self.roadmap.nodes();
        let _ = self.add_node(self.goal);
        proof {
            let nodes = self.roadmap.nodes();
            let at = choose|at: int| 0 <= at < with_start.len() && with_start[at] == self.start;
            assert(nodes[at] == self.start);
        }
    }

    fn solve(&mut self, max_samples: usize) -> (done: bool)
        ensures
            final(self).config == old(self).config,
            exists|added: Seq<Point>|
                final(self).roadmap.nodes() == old(self).roadmap.nodes() + added
                    && sprouted_in_turn(
                    old(self).roadmap.nodes(),
                    old(self).roadmap.edges(),
                    added,
                    old(self).start,
                    old(self).goal,
                    old(self).collision_checker,
                    final(self).roadmap.edges(),
                ),
            grown(
                old(self).roadmap.edges(),
                final(self).roadmap.edges(),
                final(self).roadmap.nodes(),
                final(self).collision_checker,
                by_length(),
            ),
    {
        let mut left: usize = max_samples;
        let ghost added: Seq<Point> = Seq::empty();
        let ghost rejected: Point = self.start;
        proof {
            assert(self.roadmap.nodes().is_prefix_of(self.roadmap.nodes()));
            assert(self.roadmap.nodes() =~= old(self).roadmap.nodes() + added);
            lemma_sprouted_none(
                old(self).roadmap.nodes(),
                old(self).roadmap.edges(),
                old(self).start,
                old(self).goal,
                old(self).collision_checker,
            );
        }
        while left > 0
            invariant
                self.wf(),
                self.same_setting(old(self)),
                self.roadmap.nodes() == old(self).roadmap.nodes() + added,
                sprouted_in_turn(
                    old(self).roadmap.nodes(),
                    old(self).roadmap.edges(),
                    added,
                    old(self).start,
                    old(self).goal,
                    old(self).collision_checker,
                    self.roadmap.edges(),
                ),
                old(self).roadmap.nodes().is_prefix_of(self.roadmap.nodes()),
                self.roadmap.nodes().len() + left <= old(self).roadmap.nodes().len() + max_samples,
                self.roadmap.nodes().len() < self.config.max_size || self.roadmap.nodes() == old(
                    self,
                ).roadmap.nodes(),
                added.len() > 0 ==> is_answer(
                    self.roadmap.nodes(),
                    self.roadmap.edges(),
                    self.start,
                    self.goal,
                    self.solution,
                ),
                added.len() == 0 ==> self.roadmap.edges() == old(self).roadmap.edges()
                    && self.solution == old(self).solution,
                added.len() == 0 && left < max_samples ==> old(self).boundaries.may_draw(rejected)
                    && old(self).may_reject(rejected),
                grown(
                    old(self).roadmap.edges(),
                    self.roadmap.edges(),
                    self.roadmap.nodes(),
                    self.collision_checker,
                    by_length(),
                ),
            decreases left,
        {
            left = left - 1;
            let ghost nodes_before = self.roadmap.nodes();
            let ghost edges_before = self.roadmap.edges();
            let random_node: Point = self.boundaries.generate_random_configuration();
            if self.grow(random_node) {
                proof {
                    lemma_sprouted_one_more(
                        old(self).roadmap.nodes(),
                        old(self).roadmap.edges(),
                        added,
                        random_node,
                        old(self).start,
                        old(self).goal,
                        old(self).collision_checker,
                        edges_before,
                        self.roadmap.edges(),
                    );
                    added = added.push(random_node);
                    assert(self.roadmap.nodes() =~= old(self).roadmap.nodes() + added);
                    lemma_grown_twice(
                        old(self).roadmap.edges(),
                        edges_before,
                        self.roadmap.edges(),
                        nodes_before,
                        self.roadmap.nodes(),
                        self.collision_checker,
                        by_length(),
                    );
                }
                if self.is_termination_criteria_met() {
                    return true;
                }
            } else {
                proof {
                    if added.len() == 0 {
                        rejected = random_node;
                    }
                }
            }
        }
        proof {
            if added.len() == 0 && max_samples > 0 {
                assert(old(self).limits().may_draw(rejected) && old(self).may_reject(rejected));
            }
        }
        false
    }

    fn get_solution_cost(&self) -> (cost: u64) {
        match &self.solution {
            None => largest_cost(),
            Some((cost, _)) => *cost,
        }
    }

    fn is_solved(&self) -> (solved: bool) {
        self.solution.is_some()
    }

    fn get_solution_path(&self) -> (path: Vec<Point>) {
        let mut path: Vec<Point> = Vec::new();
        match &self.solution {
            Some((_, ids)) => {
                let mut at: usize = 0;
                while at < ids.len()
                    invariant
                        self.wf(),
                        self.solution matches Some((_, all)) && all == *ids,
                        0 <= at <= ids.len(),
                        path.len() == at,
                        forall|i: int|
                            0 <= i < at ==> #[trigger] path[i] == self.roadmap.nodes()[ids[i] as int],
                    decreases ids.len() - at,
                {
                    match self.roadmap.node(ids[at]) {
                        Some(p) => {
                            path.push(p);
                        },
                        None => {
                            assert(false);
                        },
                    }
                    at = at + 1;
                }
            },
            None => {},
        }
        path
    }
}

impl Default for RRT<NaiveCollisionChecker> {
    /// A planner in an empty world, with default start, goal, boundaries
    /// and configuration, and no nodes.
    fn default() -> (planner: Self)
        ensures
            planner.wf(),
            !planner.is_solved,
            planner.solution is None,
            planner.start == (Point { x: COORDINATE_DEFAULT, y: COORDINATE_DEFAULT }),
            planner.goal == (Point { x: COORDINATE_DEFAULT, y: COORDINATE_DEFAULT }),
            planner.boundaries.default_limits(),
            planner.config.default_nearest_neighbors == 10,
            planner.config.max_size == 32,
            planner.roadmap.nodes() == Seq::<Point>::empty(),
            planner.roadmap.edges() == Seq::<(usize, usize, u64)>::empty(),
    {
        RRT {
            config: Config::default(),
            solution: None,
            is_solved: false,
            start: Point::default(),
            goal: Point::default(),
            roadmap: Roadmap::new(),
            boundaries: Boundaries::default(),
            collision_checker: NaiveCollisionChecker { phantom: PhantomData },
        }
    }
}

impl<C: CollisionChecker> RRT<C> {
    /// A planner inside `boundaries` that consults `collision_checker`,
    /// with a start and a goal drawn at random from the boundaries, the
    /// default configuration, and no nodes.
    pub fn new(boundaries: Boundaries, collision_checker: C) -> (planner: Self)
        ensures
            planner.wf(),
            !planner.is_solved,
            planner.solution is None,
            planner.collision_checker == collision_checker,
            planner.boundaries.same_limits(boundaries),
            planner.config.default_nearest_neighbors == 10,
            planner.config.max_size == 32,
            !boundaries.reversed() ==> boundaries.contains(planner.start) && boundaries.contains(
                planner.goal,
            ),
            planner.roadmap.nodes() == Seq::<Point>::empty(),
            planner.roadmap.edges() == Seq::<(usize, usize, u64)>::empty(),
    {
        let mut boundaries = boundaries;
        let start = boundaries.generate_random_configuration();
        let goal = boundaries.generate_random_configuration();
        RRT {
            config: Config::default(),
            solution: None,
            is_solved: false,
            start,
            goal,
            roadmap: Roadmap::new(),
            boundaries,
            collision_checker,
        }
    }

    /// Whether this planner differs from `other` in its roadmap and its
    /// answer at most.
    pub open spec fn same_setting(&self, other: &Self) -> bool {
        &&& self.start == other.start
        &&& self.goal == other.goal
        &&& self.collision_checker == other.collision_checker
        &&& self.config == other.config
        &&& self.boundaries.same_limits(other.boundaries)
    }

    /// Makes `node` a node of the roadmap, with the lookup and the spatial
    /// index in step, and returns its id; the id it has where it is a node
    /// already. A point out of range, and a new point once the graph is
    /// full, is refused.
    pub fn add_node(&mut self, node: Point) -> (id: Option<usize>)
        requires
            old(self).wf(),
        ensures
            final(self).wf(),
            final(self).same_setting(old(self)),
            final(self).boundaries == old(self).boundaries,
            final(self).solution == old(self).solution,
            final(self).is_solved == old(self).is_solved,
            put_in(old(self).roadmap, node, final(self).roadmap, id),
            final(self).roadmap.nodes() == taken_up(old(self).roadmap.nodes(), node),
    {
        self.roadmap.insert_node(node)
    }

    /// The id of the node that holds `node`, which becomes a node if it is
    /// none yet.
    pub fn get_node_index(&mut self, node: &Point) -> (id: Option<usize>)
        requires
            old(self).wf(),
        ensures
            final(self).wf(),
            final(self).same_setting(old(self)),
            final(self).boundaries == old(self).boundaries,
            final(self).solution == old(self).solution,
            final(self).is_solved == old(self).is_solved,
            put_in(old(self).roadmap, *node, final(self).roadmap, id),
            final(self).roadmap.nodes() == taken_up(old(self).roadmap.nodes(), *node),
    {
        self.add_node(*node)
    }

    /// Joins the nodes that hold `begin` and `end` by an edge as heavy as
    /// the two are far apart, and says whether it did. Either point becomes
    /// a node first if it is none yet. No edge is added from a node to
    /// itself, to a point the roadmap refuses, or once the graph is full.
    pub fn add_edge(&mut self, begin: Point, end: Point) -> (added: bool)
        requires
            old(self).wf(),
        ensures
            final(self).wf(),
            final(self).same_setting(old(self)),
            final(self).boundaries == old(self).boundaries,
            final(self).solution == old(self).solution,
            final(self).is_solved == old(self).is_solved,
            final(self).roadmap.nodes() == taken_up(taken_up(old(self).roadmap.nodes(), begin), end),
            added == (begin != end && holds(final(self).roadmap.nodes(), begin) && holds(
                final(self).roadmap.nodes(),
                end,
            ) && old(self).roadmap.edges().len() < GRAPH_CAPACITY),
            added ==> exists|a: usize, b: usize|
                a < final(self).roadmap.nodes().len() && b < final(self).roadmap.nodes().len()
                    && final(self).roadmap.nodes()[a as int] == begin
                    && final(self).roadmap.nodes()[b as int] == end && final(self).roadmap.edges()
                    == old(self).roadmap.edges().push((a, b, distance(begin, end))),
            !added ==> final(self).roadmap.edges() == old(self).roadmap.edges(),
    {
        let weight: u64 = begin.euclidean_distance(&end);
        let a = self.get_node_index(&begin);
        let ghost with_begin = self.roadmap.nodes();
        let b = self.get_node_index(&end);
        proof {
            self.roadmap.lemma_wf();
            if holds(with_begin, begin) {
                let at = choose|at: int| 0 <= at < with_begin.len() && with_begin[at] == begin;
                assert(self.roadmap.nodes()[at] == begin);
            }
        }
        match (a, b) {
            (Some(a), Some(b)) => {
                proof {
                    assert(self.roadmap.nodes()[a as int] == begin);
                    assert(self.roadmap.nodes()[b as int] == end);
                }
                self.roadmap.insert_edge(a, b, weight)
            },
            _ => {
                proof {
                    if a is None {
                        assert(!holds(self.roadmap.nodes(), begin)) by {
                            if holds(self.roadmap.nodes(), begin) {
                                let at = choose|at: int|
                                    0 <= at < self.roadmap.nodes().len() && self.roadmap.nodes()[at]
                                        == begin;
                                if at < with_begin.len() {
                                    assert(with_begin[at] == begin);
                                } else {
                                    assert(self.roadmap.nodes()[at] == end);
                                }
                            }
                        }
                    }
                }
                false
            },
        }
    }

    /// A node that none is nearer to `node` than, or `None` while the
    /// roadmap has no node.
    pub fn get_nearest_neighbor(&self, node: Point) -> (nearest: Option<Point>)
        requires
            self.wf(),
            in_range(node),
        ensures
            match nearest {
                Some(p) => exists|m: usize|
                    is_nearest(self.roadmap.nodes(), node, m) && self.roadmap.nodes()[m as int] == p,
                None => self.roadmap.nodes().len() == 0,
            },
    {
        match self.roadmap.nearest(&node) {
            Some(m) => {
                assert(is_nearest(self.roadmap.nodes(), node, m));
                self.roadmap.node(m)
            },
            None => None,
        }
    }

    /// Takes up one sample, or rejects it and changes nothing. The sample
    /// is taken up if the roadmap admits it as a new node and the straight
    /// connection to the node nearest to it is free. It then becomes a node
    /// joined to that nearest node by an edge as heavy as the two are far
    /// apart; the goal and the start are each joined to the node nearest to
    /// them where that connection is free; and the answer is searched
    /// afresh.
    pub fn grow(&mut self, sample: Point) -> (accepted: bool)
        requires
            old(self).wf(),
        ensures
            final(self).wf(),
            final(self).same_setting(old(self)),
            final(self).boundaries == old(self).boundaries,
            accepted ==> {
                &&& final(self).roadmap.nodes() == old(self).roadmap.nodes().push(sample)
                &&& sprouts(
                    old(self).roadmap.nodes(),
                    old(self).roadmap.edges(),
                    sample,
                    old(self).start,
                    old(self).goal,
                    old(self).collision_checker,
                    final(self).roadmap.edges(),
                )
                &&& grown(
                    old(self).roadmap.edges(),
                    final(self).roadmap.edges(),
                    final(self).roadmap.nodes(),
                    final(self).collision_checker,
                    by_length(),
                )
                &&& is_answer(
                    final(self).roadmap.nodes(),
                    final(self).roadmap.edges(),
                    final(self).start,
                    final(self).goal,
                    final(self).solution,
                )
            },
            !accepted ==> {
                &&& final(self).roadmap.nodes() == old(self).roadmap.nodes()
                &&& final(self).roadmap.edges() == old(self).roadmap.edges()
                &&& final(self).solution == old(self).solution
                &&& final(self).is_solved == old(self).is_solved
                &&& turned_away(old(self).roadmap.nodes(), sample, old(self).collision_checker)
            },
    {
        if self.collision_checker.is_node_colliding(&sample) {
            return false;
        }
        if !sample.is_in_range() {
            return false;
        }
        if self.roadmap.node_count() >= GRAPH_CAPACITY {
            return false;
        }
        match self.roadmap.node_id(&sample) {
            Some(_) => {
                return false;
            },
            None => {},
        }
        let nearest_neighbour = match self.get_nearest_neighbor(sample) {
            Some(point) => point,
            None => {
                return false;
            },
        };
        let ghost m = choose|m: usize|
            is_nearest(self.roadmap.nodes(), sample, m) && self.roadmap.nodes()[m as int]
                == nearest_neighbour;
        if self.collision_checker.is_edge_colliding(&sample, &nearest_neighbour) {
            return false;
        }
        let ghost nodes_before = self.roadmap.nodes();
        let ghost edges_before = self.roadmap.edges();
        proof {
            self.roadmap.lemma_wf();
        }
        let _ = self.add_node(sample);
        let _ = self.add_edge(sample, nearest_neighbour);
        let ghost nodes = self.roadmap.nodes();
        let ghost with_edge = self.roadmap.edges();
        proof {
            self.roadmap.lemma_wf();
            assert(nodes[m as int] == nearest_neighbour);
            assert(nodes[nodes_before.len() as int] == sample);
            assert(holds(nodes, sample));
            assert(holds(nodes, nearest_neighbour));
            assert(nodes == nodes_before.push(sample));
            if edges_before.len() < GRAPH_CAPACITY {
                let (a, b) = choose|a: usize, b: usize|
                    a < nodes.len() && b < nodes.len() && nodes[a as int] == sample
                        && nodes[b as int] == nearest_neighbour && with_edge == edges_before.push(
                        (a, b, distance(sample, nearest_neighbour)),
                    );
                assert(a == nodes_before.len());
                assert(b == m);
                assert(free_edge(
                    with_edge[edges_before.len() as int],
                    nodes,
                    self.collision_checker,
                    by_length(),
                ));
            }
            assert(grown(edges_before, with_edge, nodes, self.collision_checker, by_length()));
        }
        self.check_solution();
        proof {
            let between = choose|between: Seq<(usize, usize, u64)>|
                joined_to_nearest(
                    with_edge,
                    nodes,
                    self.goal,
                    2,
                    self.collision_checker,
                    by_length(),
                    between,
                ) && joined_to_nearest(
                    between,
                    nodes,
                    self.start,
                    2,
                    self.collision_checker,
                    by_length(),
                    self.roadmap.edges(),
                );
            lemma_joined_grows(
                with_edge,
                nodes,
                self.goal,
                2,
                self.collision_checker,
                by_length(),
                between,
            );
            lemma_joined_grows(
                between,
                nodes,
                self.start,
                2,
                self.collision_checker,
                by_length(),
                self.roadmap.edges(),
            );
            lemma_grown_twice(
                edges_before,
                with_edge,
                between,
                nodes,
                nodes,
                self.collision_checker,
                by_length(),
            );
            lemma_grown_twice(
                edges_before,
                between,
                self.roadmap.edges(),
                nodes,
                nodes,
                self.collision_checker,
                by_length(),
            );
            assert(is_nearest(nodes_before, sample, m) && !self.collision_checker.edge_blocked(
                sample,
                nodes_before[m as int],
            ) && spliced(
                if edges_before.len() < GRAPH_CAPACITY {
                    edges_before.push(
                        (nodes_before.len() as usize, m, distance(sample, nodes_before[m as int])),
                    )
                } else {
                    edges_before
                },
                nodes_before.push(sample),
                self.start,
                self.goal,
                self.collision_checker,
                self.roadmap.edges(),
            ));
        }
        true
    }

    /// Joins the goal, and then the start, to the node nearest to it where
    /// the straight connection is free and no edge joins the two yet; then
    /// searches the roadmap afresh for a cheapest path from the start to the
    /// goal and keeps what it finds as the answer.
    pub fn check_solution(&mut self)
        requires
            old(self).roadmap.wf(),
        ensures
            final(self).wf(),
            final(self).same_setting(old(self)),
            final(self).boundaries == old(self).boundaries,
            final(self).roadmap.nodes() == old(self).roadmap.nodes(),
            spliced(
                old(self).roadmap.edges(),
                old(self).roadmap.nodes(),
                old(self).start,
                old(self).goal,
                old(self).collision_checker,
                final(self).roadmap.edges(),
            ),
            is_answer(
                final(self).roadmap.nodes(),
                final(self).roadmap.edges(),
                final(self).start,
                final(self).goal,
                final(self).solution,
            ),
    {
        let euclid = DefaultOptimizer { phantom: PhantomData };
        connect_node(&mut self.roadmap, &self.collision_checker, &euclid, self.goal, 2);
        let ghost between = self.roadmap.edges();
        connect_node(&mut self.roadmap, &self.collision_checker, &euclid, self.start, 2);
        proof {
            assert(joined_to_nearest(
                old(self).roadmap.edges(),
                old(self).roadmap.nodes(),
                self.goal,
                2,
                self.collision_checker,
                by_length(),
                between,
            ) && joined_to_nearest(
                between,
                old(self).roadmap.nodes(),
                self.start,
                2,
                self.collision_checker,
                by_length(),
                self.roadmap.edges(),
            ));
        }
        self.solution = answer(&self.roadmap, &self.start, &self.goal);
        self.is_solved = self.solution.is_some();
    }

    /// Whether the roadmap has reached the size at which the planner
    /// stops.
    pub fn is_termination_criteria_met(&self) -> (met: bool)
        ensures
            met == (self.roadmap.nodes().len() >= self.config.max_size),
    {
        BaseTerminationCriteria::new(self.config.max_size).is_met(self.roadmap.node_count())
    }

    /// The graph of the roadmap, for a reader that writes it out.
    pub fn get_graph(&self) -> (graph: &Graph<(i64, i64), u64, Undirected, u32>)
        ensures
            graph_nodes(*graph).len() == self.roadmap.nodes().len(),
            forall|i: int|
                0 <= i < self.roadmap.nodes().len() ==> point_of(#[trigger] graph_nodes(*graph)[i])
                    == self.roadmap.nodes()[i],
            graph_edges(*graph) == self.roadmap.edges(),
    {
        self.roadmap.get_graph()
    }
}

} // verus!
