//! The roadmap: a graph of configurations, the lookup from a
//! configuration's canonical text to its node, and the spatial index over
//! the nodes, kept in step behind one way of putting a node in.
use vstd::prelude::*;
use vstd::hash_map::StringHashMap;
use petgraph::graph::Graph;
use petgraph::Undirected;
use crate::planner::graph_utils::{
    connected, graph_add_edge, graph_add_node, graph_astar, graph_edge_count,
    is_edge_already_in_graph, joins,
    graph_edges, graph_new, graph_node_count, graph_node_weight, graph_nodes, is_shortest, is_walk,
    leads, reachable, walk_cost, GRAPH_CAPACITY,
};
use crate::planner::spatial_index::{
    all_in_range, gap_squared, index_insert, index_k_nearest, index_nearest, index_new,
    index_order, index_points, index_size, is_k_nearest, pair_in_range, SpatialIndex,
};
use crate::space::{
    in_range, lemma_wkt_text_injective, squared_distance, within_epsilon, wkt_text, Point,
};
use crate::types::COST_MAX;

verus! {

/// The point with the coordinates `c`.
pub open spec fn point_of(c: (i64, i64)) -> Point {
    Point { x: c.0, y: c.1 }
}

/// Whether `nodes` holds `p`.
pub open spec fn holds(nodes: Seq<Point>, p: Point) -> bool {
    exists|i: int| 0 <= i < nodes.len() && nodes[i] == p
}

/// Whether `ids` is what a query for the `k` nodes nearest to `p` may give
/// on `nodes`: `k` different nodes, or all where there are fewer; nearest
/// first; no nearer node left out. Among equally near nodes any may come.
pub open spec fn nearest_ids(nodes: Seq<Point>, p: Point, k: usize, ids: Seq<usize>) -> bool {
    &&& ids.len() == if k <= nodes.len() {
        k as nat
    } else {
        nodes.len()
    }
    &&& forall|i: int| 0 <= i < ids.len() ==> (#[trigger] ids[i]) < nodes.len()
    &&& forall|i: int, j: int| 0 <= i < j < ids.len() ==> #[trigger] ids[i] != #[trigger] ids[j]
    &&& forall|i: int, j: int|
        0 <= i <= j < ids.len() ==> squared_distance(nodes[#[trigger] ids[i] as int], p)
            <= squared_distance(nodes[#[trigger] ids[j] as int], p)
    &&& forall|m: int, i: int|
        0 <= m < nodes.len() && 0 <= i < ids.len() && !ids.contains(m as usize)
            ==> squared_distance(nodes[#[trigger] ids[i] as int], p) <= squared_distance(
            #[trigger] nodes[m],
            p,
        )
}

/// The cost of a path as a planner reports it: the summed weight, or the
/// largest cost where the sum exceeds it.
pub open spec fn capped(total: nat) -> u64 {
    if total >= COST_MAX {
        COST_MAX
    } else {
        total as u64
    }
}

/// The squared distance between two points is the squared gap between
/// their coordinates.
pub proof fn lemma_squared_distance_is_gap(a: (i64, i64), b: (i64, i64))
    ensures
        squared_distance(point_of(a), point_of(b)) == gap_squared(a, b),
{
    let dx = a.0 - b.0;
    let dy = a.1 - b.1;
    assert(dx * dx >= 0) by (nonlinear_arith);
    assert(dy * dy >= 0) by (nonlinear_arith);
}

/// A walk that begins at a node runs over nodes only.
pub proof fn lemma_walk_stays_inside(
    edges: Seq<(usize, usize, u64)>,
    nodes: Seq<usize>,
    steps: Seq<int>,
    count: nat,
)
    requires
        is_walk(edges, nodes, steps),
        nodes[0] < count,
        forall|e: int| 0 <= e < edges.len() ==> (#[trigger] edges[e]).0 < count && edges[e].1 < count,
    ensures
        forall|i: int| 0 <= i < nodes.len() ==> (#[trigger] nodes[i]) < count,
{
    assert forall|i: int| 0 <= i < nodes.len() implies (#[trigger] nodes[i]) < count by {
        if i > 0 {
            let e = steps[i - 1];
            assert(0 <= e < edges.len());
            assert(edges[e].0 < count && edges[e].1 < count);
        }
    }
}

/// An undirected weighted graph of configurations. A configuration is a
/// node at most once; an edge joins two different nodes.
pub struct Roadmap {
    graph: Graph<(i64, i64), u64, Undirected, u32>,
    tree: SpatialIndex,
    index_node_lookup: StringHashMap<usize>,
}

/// Whether `after` and `id` are what putting `p` into `before` gives: the
/// edges stay; a point that is a node already changes nothing and gets its
/// id; a new point in range becomes the last node, if the graph has room;
/// any other is refused.
pub open spec fn put_in(before: Roadmap, p: Point, after: Roadmap, id: Option<usize>) -> bool {
    &&& after.edges() == before.edges()
    &&& match id {
        Some(i) => {
            &&& i < after.nodes().len()
            &&& after.nodes()[i as int] == p
            &&& if holds(before.nodes(), p) {
                &&& after.nodes() == before.nodes()
                &&& after.indexed() == before.indexed()
                &&& after.keyed() == before.keyed()
            } else {
                &&& after.nodes() == before.nodes().push(p)
                &&& after.indexed() == before.indexed() + 1
                &&& after.keyed() == before.keyed() + 1
            }
        },
        None => {
            &&& after.nodes() == before.nodes()
            &&& after.indexed() == before.indexed()
            &&& after.keyed() == before.keyed()
        },
    }
    &&& id is None <==> !holds(before.nodes(), p) && (!in_range(p) || before.nodes().len()
        >= GRAPH_CAPACITY)
}

/// Putting a configuration in a second time changes nothing: after `p`
/// was put into a roadmap, putting in any `q` that equals `p` within the
/// tolerance leaves the nodes, the spatial index and the lookup at the size
/// they had, and gives the same id.
pub proof fn lemma_insertion_is_idempotent(
    before: Roadmap,
    p: Point,
    once: Roadmap,
    first: Option<usize>,
    q: Point,
    twice: Roadmap,
    second: Option<usize>,
)
    requires
        before.wf(),
        once.wf(),
        put_in(before, p, once, first),
        within_epsilon(p, q),
        put_in(once, q, twice, second),
    ensures
        q == p,
        twice.nodes() == once.nodes(),
        twice.edges() == once.edges(),
        twice.indexed() == once.indexed(),
        twice.keyed() == once.keyed(),
        second == first,
{
    once.lemma_wf();
    match first {
        Some(i) => {
            assert(holds(once.nodes(), q));
            let j = second->0;
            assert(once.nodes()[j as int] == once.nodes()[i as int]);
        },
        None => {},
    }
}

impl Roadmap {
    /// The configurations, by node id.
    pub closed spec fn nodes(&self) -> Seq<Point> {
        Seq::new(graph_nodes(self.graph).len(), |i: int| point_of(graph_nodes(self.graph)[i]))
    }

    /// The edges in the order they were put in: the ids of the two ends and
    /// the weight.
    pub closed spec fn edges(&self) -> Seq<(usize, usize, u64)> {
        graph_edges(self.graph)
    }

    /// How many coordinates the spatial index holds.
    pub closed spec fn indexed(&self) -> nat {
        index_points(self.tree).len()
    }

    /// How many canonical texts the lookup holds.
    pub closed spec fn keyed(&self) -> nat {
        self.index_node_lookup@.len()
    }

    /// The ids of the `k` nodes nearest to `p`, or of all where there are
    /// fewer, in the order in which the spatial index hands their
    /// coordinates out. It is the same as long as no node is put in.
    pub closed spec fn neighbours(&self, p: Point, k: usize) -> Seq<usize> {
        let order = index_order(self.tree, (p.x, p.y));
        let count = if k <= index_points(self.tree).len() {
            k as nat
        } else {
            index_points(self.tree).len()
        };
        Seq::new(count, |i: int| self.index_node_lookup@[wkt_text(point_of(order[i]))])
    }

    /// The three structures agree: the index holds the coordinates of the
    /// nodes and nothing else, the lookup leads from each node's canonical
    /// text to its id and from nothing else, every node lies in range, and
    /// every edge joins two different nodes.
    pub closed spec fn wf(&self) -> bool {
        let coords = graph_nodes(self.graph);
        let edges = graph_edges(self.graph);
        let lookup = self.index_node_lookup@;
        &&& coords.len() <= GRAPH_CAPACITY
        &&& edges.len() <= GRAPH_CAPACITY
        &&& index_points(self.tree) == coords.to_multiset()
        &&& forall|i: int| 0 <= i < coords.len() ==> pair_in_range(#[trigger] coords[i])
        &&& lookup.dom().finite()
        &&& lookup.len() == coords.len()
        &&& forall|i: int|
            0 <= i < coords.len() ==> lookup.contains_key(wkt_text(point_of(#[trigger] coords[i])))
                && lookup[wkt_text(point_of(coords[i]))] == i
        &&& forall|key: Seq<char>| #[trigger]
            lookup.contains_key(key) ==> lookup[key] < coords.len() && wkt_text(
                point_of(coords[lookup[key] as int]),
            ) == key
        &&& forall|e: int|
            0 <= e < edges.len() ==> (#[trigger] edges[e]).0 < coords.len() && edges[e].1
                < coords.len() && edges[e].0 != edges[e].1
    }

    /// What a well-formed roadmap is: no more nodes or edges than a graph
    /// takes; as many indexed coordinates and lookup entries as nodes; every
    /// node in range; no configuration twice; every edge between two
    /// different nodes.
    pub proof fn lemma_wf(&self)
        requires
            self.wf(),
        ensures
            self.nodes().len() <= GRAPH_CAPACITY,
            self.edges().len() <= GRAPH_CAPACITY,
            self.indexed() == self.nodes().len(),
            self.keyed() == self.nodes().len(),
            forall|i: int| 0 <= i < self.nodes().len() ==> in_range(#[trigger] self.nodes()[i]),
            forall|i: int, j: int|
                0 <= i < self.nodes().len() && 0 <= j < self.nodes().len() && self.nodes()[i]
                    == self.nodes()[j] ==> i == j,
            forall|e: int|
                0 <= e < self.edges().len() ==> (#[trigger] self.edges()[e]).0 < self.nodes().len()
                    && self.edges()[e].1 < self.nodes().len() && self.edges()[e].0
                    != self.edges()[e].1,
    {
        let coords = graph_nodes(self.graph);
        coords.to_multiset_ensures();
        assert forall|i: int, j: int|
            0 <= i < self.nodes().len() && 0 <= j < self.nodes().len() && self.nodes()[i]
                == self.nodes()[j] implies i == j by {
            assert(pair_in_range(coords[i]));
            assert(pair_in_range(coords[j]));
        }
        assert forall|i: int| 0 <= i < self.nodes().len() implies in_range(
            #[trigger] self.nodes()[i],
        ) by {
            assert(pair_in_range(coords[i]));
        }
    }

    /// A roadmap without nodes or edges.
    pub fn new() -> (roadmap: Self)
        ensures
            roadmap.wf(),
            roadmap.nodes() == Seq::<Point>::empty(),
            roadmap.edges() == Seq::<(usize, usize, u64)>::empty(),
    {
        let roadmap = Roadmap {
            graph: graph_new(),
            tree: index_new(),
            index_node_lookup: StringHashMap::new(),
        };
        proof {
            graph_nodes(roadmap.graph).to_multiset_ensures();
            assert(graph_nodes(roadmap.graph).to_multiset() =~= index_points(roadmap.tree));
            assert(roadmap.nodes() =~= Seq::<Point>::empty());
        }
        roadmap
    }

    /// How many nodes the roadmap has.
    pub fn node_count(&self) -> (count: usize)
        ensures
            count == self.nodes().len(),
    {
        graph_node_count(&self.graph)
    }

    /// How many edges the roadmap has.
    pub fn edge_count(&self) -> (count: usize)
        ensures
            count == self.edges().len(),
    {
        graph_edge_count(&self.graph)
    }

    /// How many coordinates the spatial index holds: in a well-formed
    /// roadmap, one for each node.
    pub fn tree_size(&self) -> (size: usize)
        ensures
            size == self.indexed(),
            self.wf() ==> size == self.nodes().len(),
    {
        proof {
            if self.wf() {
                self.lemma_wf();
            }
        }
        index_size(&self.tree)
    }

    /// How many canonical texts the lookup holds: in a well-formed roadmap,
    /// one for each node.
    pub fn lookup_len(&self) -> (size: usize)
        ensures
            size == self.keyed(),
            self.wf() ==> size == self.nodes().len(),
    {
        proof {
            if self.wf() {
                self.lemma_wf();
            }
        }
        self.index_node_lookup.len()
    }

    /// The graph itself, for a reader that writes it out.
    pub fn get_graph(&self) -> (graph: &Graph<(i64, i64), u64, Undirected, u32>)
        ensures
            graph_nodes(*graph).len() == self.nodes().len(),
            forall|i: int|
                0 <= i < self.nodes().len() ==> point_of(#[trigger] graph_nodes(*graph)[i])
                    == self.nodes()[i],
            graph_edges(*graph) == self.edges(),
    {
        &self.graph
    }

    /// The configuration at node `id`, if there is such a node.
    pub fn node(&self, id: usize) -> (found: Option<Point>)
        ensures
            found == if id < self.nodes().len() {
                Some(self.nodes()[id as int])
            } else {
                None
            },
    {
        if id < graph_node_count(&self.graph) {
            match graph_node_weight(&self.graph, id) {
                Some(c) => Some(Point::new(c.0, c.1)),
                None => None,
            }
        } else {
            None
        }
    }

    /// The id of the node that holds `p`, if any does.
    pub fn node_id(&self, p: &Point) -> (id: Option<usize>)
        requires
            self.wf(),
        ensures
            match id {
                Some(i) => i < self.nodes().len() && self.nodes()[i as int] == *p,
                None => !holds(self.nodes(), *p),
            },
    {
        let key = p.to_wkt();
        match self.index_node_lookup.get(key.as_str()) {
            Some(i) => {
                proof {
                    lemma_wkt_text_injective(self.nodes()[*i as int], *p);
                }
                Some(*i)
            },
            None => {
                assert forall|i: int| 0 <= i < self.nodes().len() implies self.nodes()[i] != *p by {
                    let c = graph_nodes(self.graph)[i];
                    assert(self.index_node_lookup@.contains_key(wkt_text(point_of(c))));
                }
                None
            },
        }
    }

    /// Puts `p` in, unless it is a node already: then nothing changes and
    /// its id is returned. A new node gets the next id. A point out of
    /// range, and any new point once the graph is full, is refused: nothing
    /// changes and `None` is returned.
    pub fn insert_node(&mut self, p: Point) -> (id: Option<usize>)
        requires
            old(self).wf(),
        ensures
            final(self).wf(),
            put_in(*old(self), p, *final(self), id),
    {
        match self.node_id(&p) {
            Some(i) => {
                return Some(i);
            },
            None => {},
        }
        if !p.is_in_range() {
            return None;
        }
        if graph_node_count(&self.graph) >= GRAPH_CAPACITY {
            return None;
        }
        let key = p.to_wkt();
        let ghost coords = graph_nodes(self.graph);
        let ghost lookup = self.index_node_lookup@;
        proof {
            coords.to_multiset_ensures();
            assert(all_in_range(index_points(self.tree))) by {
                assert forall|c: (i64, i64)| index_points(self.tree).count(c) > 0 implies pair_in_range(
                    c,
                ) by {
                    assert(coords.contains(c));
                }
            }
            if lookup.contains_key(key@) {
                let at = lookup[key@];
                lemma_wkt_text_injective(self.nodes()[at as int], p);
                assert(false);
            }
        }
        let id = graph_add_node(&mut self.graph, (p.x, p.y));
        self.index_node_lookup.insert(key, id);
        index_insert(&mut self.tree, (p.x, p.y));
        proof {
            let after = graph_nodes(self.graph);
            assert(after == coords.push((p.x, p.y)));
            assert(self.nodes() =~= old(self).nodes().push(p));
            assert forall|i: int| 0 <= i < after.len() implies self.index_node_lookup@.contains_key(
                wkt_text(point_of(#[trigger] after[i])),
            ) && self.index_node_lookup@[wkt_text(point_of(after[i]))] == i by {
                if i < coords.len() {
                    assert(after[i] == coords[i]);
                    assert(lookup.contains_key(wkt_text(point_of(coords[i]))));
                }
            }
            assert forall|k: Seq<char>| #[trigger]
                self.index_node_lookup@.contains_key(k) implies self.index_node_lookup@[k]
                < after.len() && wkt_text(point_of(after[self.index_node_lookup@[k] as int]))
                == k by {
                if k != key@ {
                    assert(lookup.contains_key(k));
                    assert(after[lookup[k] as int] == coords[lookup[k] as int]);
                }
            }
            assert forall|i: int| 0 <= i < after.len() implies pair_in_range(#[trigger] after[i]) by {
                if i < coords.len() {
                    assert(after[i] == coords[i]);
                }
            }
        }
        Some(id)
    }

    /// The ids of the `k` nodes nearest to `p`, nearest first: what the
    /// spatial index finds, each coordinate resolved to its node through the
    /// lookup.
    pub fn k_nearest(&self, p: &Point, k: usize) -> (ids: Vec<usize>)
        requires
            self.wf(),
            in_range(*p),
        ensures
            nearest_ids(self.nodes(), *p, k, ids@),
            ids@ == self.neighbours(*p, k),
    {
        let ghost coords = graph_nodes(self.graph);
        let ghost points = index_points(self.tree);
        let ghost query = (p.x, p.y);
        proof {
            coords.to_multiset_ensures();
            assert forall|c: (i64, i64)| points.count(c) > 0 implies pair_in_range(c) by {
                assert(coords.contains(c));
            }
        }
        let found = index_k_nearest(&self.tree, (p.x, p.y), k);
        let mut ids: Vec<usize> = Vec::new();
        let mut at: usize = 0;
        proof {
            found@.to_multiset_ensures();
        }
        while at < found.len()
            invariant
                self.wf(),
                coords == graph_nodes(self.graph),
                points == index_points(self.tree),
                points == coords.to_multiset(),
                is_k_nearest(points, query, k, found@),
                0 <= at <= found.len(),
                ids.len() == at,
                forall|i: int|
                    0 <= i < at ==> (#[trigger] ids[i]) < coords.len() && coords[ids[i] as int]
                        == found[i] && ids[i] == self.index_node_lookup@[wkt_text(
                        point_of(found[i]),
                    )],
            decreases found.len() - at,
        {
            let c = found[at];
            let key = Point::new(c.0, c.1).to_wkt();
            proof {
                coords.to_multiset_ensures();
                found@.to_multiset_ensures();
                assert(found@.contains(c));
                assert(found@.to_multiset().count(c) > 0);
                assert(points.count(c) > 0);
                assert(coords.contains(c));
                let m = choose|m: int| 0 <= m < coords.len() && coords[m] == c;
                assert(self.index_node_lookup@.contains_key(wkt_text(point_of(coords[m]))));
            }
            match self.index_node_lookup.get(key.as_str()) {
                Some(id) => {
                    proof {
                        lemma_wkt_text_injective(point_of(coords[*id as int]), point_of(c));
                    }
                    ids.push(*id);
                },
                None => {
                    assert(false);
                },
            }
            at = at + 1;
        }
        proof {
            self.lemma_wf();
            coords.to_multiset_ensures();
            found@.to_multiset_ensures();
            let nodes = self.nodes();
            assert(ids@ =~= self.neighbours(*p, k));
            assert forall|i: int| 0 <= i < ids.len() implies squared_distance(
                nodes[#[trigger] ids[i] as int],
                *p,
            ) == gap_squared(found[i], query) by {
                lemma_squared_distance_is_gap(found[i], query);
            }
            assert forall|i: int, j: int| 0 <= i < j < ids.len() implies #[trigger] ids[i]
                != #[trigger] ids[j] by {
                if ids[i] == ids[j] {
                    let c = found[i];
                    assert(found[j] == c);
                    assert(coords.no_duplicates()) by {
                        assert forall|a: int, b: int|
                            0 <= a < coords.len() && 0 <= b < coords.len() && a != b implies coords[a]
                            != coords[b] by {
                            assert(nodes[a] == point_of(coords[a]));
                            assert(nodes[b] == point_of(coords[b]));
                        }
                    }
                    coords.lemma_multiset_has_no_duplicates();
                    assert(points.count(c) == 1);
                    let rest = found@.remove(i);
                    assert(rest[j - 1] == c);
                    assert(rest.contains(c));
                    rest.to_multiset_ensures();
                    assert(rest.to_multiset().count(c) > 0);
                    assert(rest.to_multiset() == found@.to_multiset().remove(c));
                    assert(found@.to_multiset().count(c) >= 2);
                    assert(false);
                }
            }
            assert forall|m: int, i: int|
                0 <= m < nodes.len() && 0 <= i < ids.len() && !ids@.contains(
                    m as usize,
                ) implies squared_distance(nodes[#[trigger] ids[i] as int], *p) <= squared_distance(
                #[trigger] nodes[m],
                *p,
            ) by {
                let c = coords[m];
                assert(coords.contains(c));
                assert(points.count(c) > 0);
                if found@.contains(c) {
                    let j = choose|j: int| 0 <= j < found.len() && found[j] == c;
                    assert(coords[ids[j] as int] == c);
                    assert(nodes[ids[j] as int] == nodes[m]);
                    assert(ids[j] == m);
                    assert(ids@.contains(m as usize));
                    assert(false);
                }
                assert(found@.to_multiset().count(c) == 0);
                assert(gap_squared(found[i], query) <= gap_squared(c, query));
                lemma_squared_distance_is_gap(c, query);
                assert(squared_distance(nodes[m], *p) == gap_squared(c, query));
            }
        }
        ids
    }

    /// The id of a node that none is nearer to `p` than, or `None` on an
    /// empty roadmap.
    pub fn nearest(&self, p: &Point) -> (id: Option<usize>)
        requires
            self.wf(),
            in_range(*p),
        ensures
            match id {
                Some(i) => i < self.nodes().len() && forall|m: int|
                    0 <= m < self.nodes().len() ==> squared_distance(self.nodes()[i as int], *p)
                        <= squared_distance(#[trigger] self.nodes()[m], *p),
                None => self.nodes().len() == 0,
            },
    {
        let ghost coords = graph_nodes(self.graph);
        let ghost points = index_points(self.tree);
        let ghost query = (p.x, p.y);
        proof {
            coords.to_multiset_ensures();
            assert forall|c: (i64, i64)| points.count(c) > 0 implies pair_in_range(c) by {
                assert(coords.contains(c));
            }
        }
        match index_nearest(&self.tree, (p.x, p.y)) {
            Some(c) => {
                let key = Point::new(c.0, c.1).to_wkt();
                proof {
                    assert(coords.contains(c));
                    let m = choose|m: int| 0 <= m < coords.len() && coords[m] == c;
                    assert(self.index_node_lookup@.contains_key(wkt_text(point_of(coords[m]))));
                }
                match self.index_node_lookup.get(key.as_str()) {
                    Some(id) => {
                        proof {
                            lemma_wkt_text_injective(point_of(coords[*id as int]), point_of(c));
                            assert forall|m: int| 0 <= m < self.nodes().len() implies squared_distance(
                                self.nodes()[*id as int],
                                *p,
                            ) <= squared_distance(#[trigger] self.nodes()[m], *p) by {
                                let d = coords[m];
                                assert(coords.contains(d));
                                assert(points.count(d) > 0);
                                assert(gap_squared(c, query) <= gap_squared(d, query));
                                lemma_squared_distance_is_gap(c, query);
                                lemma_squared_distance_is_gap(d, query);
                            }
                        }
                        Some(*id)
                    },
                    None => {
                        assert(false);
                        None
                    },
                }
            },
            None => None,
        }
    }

    /// A cheapest path from node `from` to node `to` and its cost, or
    /// `None` where no path leads there. The path visits no node twice. The
    /// search starts afresh on every call: a uniform-cost search over the
    /// edges' weights.
    pub fn shortest_path(&self, from: usize, to: usize) -> (found: Option<(u64, Vec<usize>)>)
        requires
            self.wf(),
            from < self.nodes().len(),
            to < self.nodes().len(),
        ensures
            match found {
                Some((cost, path)) => {
                    &&& exists|total: nat|
                        is_shortest(self.edges(), from, to, total, path@) && cost == capped(total)
                    &&& forall|i: int| 0 <= i < path.len() ==> (#[trigger] path[i]) < self.nodes().len()
                    &&& path@.no_duplicates()
                },
                None => !reachable(self.edges(), from, to),
            },
    {
        match graph_astar(&self.graph, from, to) {
            Some((total, path)) => {
                proof {
                    let steps = choose|steps: Seq<int>|
                        leads(self.edges(), path@, steps, from, to) && walk_cost(
                            self.edges(),
                            steps,
                        ) == total as nat;
                    self.lemma_wf();
                    lemma_walk_stays_inside(self.edges(), path@, steps, self.nodes().len());
                }
                let cost: u64 = if total >= COST_MAX as u128 {
                    COST_MAX
                } else {
                    total as u64
                };
                assert(is_shortest(self.edges(), from, to, total as nat, path@) && cost == capped(
                    total as nat,
                ));
                Some((cost, path))
            },
            None => None,
        }
    }

    /// Whether some edge joins the nodes `a` and `b`.
    pub fn has_edge(&self, a: usize, b: usize) -> (found: bool)
        requires
            self.wf(),
        ensures
            found == connected(self.edges(), a, b),
    {
        proof {
            self.lemma_wf();
            if connected(self.edges(), a, b) {
                let e = choose|e: int|
                    0 <= e < self.edges().len() && joins(
                        #[trigger] self.edges()[e],
                        a,
                        b,
                    );
                assert(self.edges()[e].0 < self.nodes().len());
            }
        }
        is_edge_already_in_graph(&self.graph, a, b)
    }

    /// Joins the nodes `a` and `b` by an edge of the given weight. Nothing
    /// happens if `a` and `b` are the same node, if either is no node of
    /// the roadmap, or if the graph takes no more edges.
    pub fn insert_edge(&mut self, a: usize, b: usize, weight: u64) -> (added: bool)
        requires
            old(self).wf(),
        ensures
            final(self).wf(),
            final(self).nodes() == old(self).nodes(),
            added == (a != b && a < old(self).nodes().len() && b < old(self).nodes().len() && old(
                self,
            ).edges().len() < GRAPH_CAPACITY),
            final(self).edges() == if added {
                old(self).edges().push((a, b, weight))
            } else {
                old(self).edges()
            },
            forall|p: Point, k: usize| #[trigger]
                final(self).neighbours(p, k) == old(self).neighbours(p, k),
    {
        let n = graph_node_count(&self.graph);
        if a == b || a >= n || b >= n || graph_edge_count(&self.graph) >= GRAPH_CAPACITY {
            return false;
        }
        graph_add_edge(&mut self.graph, a, b, weight);
        proof {
            assert(self.nodes() =~= old(self).nodes());
        }
        true
    }
}

} // verus!
