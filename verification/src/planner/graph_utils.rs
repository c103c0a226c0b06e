//! The undirected weighted graph that stores a roadmap, and the search for
//! its cheapest path.
use vstd::prelude::*;
use petgraph::algo::astar;
use petgraph::graph::{Graph, NodeIndex};
use petgraph::visit::EdgeRef;
use petgraph::Undirected;

verus! {

/// `petgraph::graph::Graph`, taken as it is: what a graph holds is known
/// through `graph_nodes` and `graph_edges` alone.
#[verifier::external_type_specification]
#[verifier::external_body]
#[verifier::reject_recursive_types(N)]
#[verifier::reject_recursive_types(E)]
#[verifier::reject_recursive_types(Ty)]
#[verifier::reject_recursive_types(Ix)]
pub struct ExGraph<N, E, Ty, Ix>(Graph<N, E, Ty, Ix>);

/// `petgraph::Undirected`, the marker of graphs whose edges have no
/// direction.
#[verifier::external_type_specification]
#[verifier::external_body]
pub struct ExUndirected(Undirected);

/// The coordinates stored at each node of `graph`, by node id.
pub uninterp spec fn graph_nodes(graph: Graph<(i64, i64), u64, Undirected, u32>) -> Seq<(i64, i64)>;

/// The edges of `graph` in the order they were added: the ids of the two
/// ends and the weight.
pub uninterp spec fn graph_edges(graph: Graph<(i64, i64), u64, Undirected, u32>) -> Seq<
    (usize, usize, u64),
>;

/// The most nodes, and the most edges, a graph takes: its ids are 32 bits
/// wide and the last one is kept free.
pub const GRAPH_CAPACITY: usize = 0xffff_ffff;

/// Whether `edge` joins `a` and `b`, in either direction.
pub open spec fn joins(edge: (usize, usize, u64), a: usize, b: usize) -> bool {
    (edge.0 == a && edge.1 == b) || (edge.0 == b && edge.1 == a)
}

/// Whether some edge joins `a` and `b`.
pub open spec fn connected(edges: Seq<(usize, usize, u64)>, a: usize, b: usize) -> bool {
    exists|i: int| 0 <= i < edges.len() && joins(#[trigger] edges[i], a, b)
}

/// Whether `steps` names, for each pair of neighbours in `nodes`, an edge
/// that joins them.
pub open spec fn is_walk(edges: Seq<(usize, usize, u64)>, nodes: Seq<usize>, steps: Seq<int>) -> bool {
    &&& nodes.len() == steps.len() + 1
    &&& forall|i: int|
        0 <= i < steps.len() ==> 0 <= #[trigger] steps[i] < edges.len() && joins(
            edges[steps[i]],
            nodes[i],
            nodes[i + 1],
        )
}

/// The summed weight of the edges that `steps` names.
pub open spec fn walk_cost(edges: Seq<(usize, usize, u64)>, steps: Seq<int>) -> nat
    decreases steps.len(),
{
    if steps.len() == 0 {
        0
    } else {
        walk_cost(edges, steps.drop_last()) + edges[steps.last()].2 as nat
    }
}

/// Whether `nodes` and `steps` are a walk that begins at `from` and ends at
/// `to`.
pub open spec fn leads(
    edges: Seq<(usize, usize, u64)>,
    nodes: Seq<usize>,
    steps: Seq<int>,
    from: usize,
    to: usize,
) -> bool {
    &&& is_walk(edges, nodes, steps)
    &&& nodes[0] == from
    &&& nodes.last() == to
}

/// Whether any walk leads from `from` to `to`.
pub open spec fn reachable(edges: Seq<(usize, usize, u64)>, from: usize, to: usize) -> bool {
    exists|nodes: Seq<usize>, steps: Seq<int>| leads(edges, nodes, steps, from, to)
}

/// Whether `path` is a walk from `from` to `to` that costs `cost`, and no
/// walk from `from` to `to` costs less.
pub open spec fn is_shortest(
    edges: Seq<(usize, usize, u64)>,
    from: usize,
    to: usize,
    cost: nat,
    path: Seq<usize>,
) -> bool {
    &&& exists|steps: Seq<int>| leads(edges, path, steps, from, to) && walk_cost(edges, steps) == cost
    &&& forall|nodes: Seq<usize>, steps: Seq<int>| #[trigger]
        leads(edges, nodes, steps, from, to) ==> cost <= walk_cost(edges, steps)
}

/// `Graph::new_undirected`: a graph without nodes or edges.
#[verifier::external_body]
pub(crate) fn graph_new() -> (graph: Graph<(i64, i64), u64, Undirected, u32>)
    ensures
        graph_nodes(graph) == Seq::<(i64, i64)>::empty(),
        graph_edges(graph) == Seq::<(usize, usize, u64)>::empty(),
{
    Graph::new_undirected()
}

/// `Graph::node_count`: how many nodes the graph holds.
#[verifier::external_body]
pub(crate) fn graph_node_count(graph: &Graph<(i64, i64), u64, Undirected, u32>) -> (count: usize)
    ensures
        count == graph_nodes(*graph).len(),
{
    graph.node_count()
}

/// `Graph::edge_count`: how many edges the graph holds.
#[verifier::external_body]
pub(crate) fn graph_edge_count(graph: &Graph<(i64, i64), u64, Undirected, u32>) -> (count: usize)
    ensures
        count == graph_edges(*graph).len(),
{
    graph.edge_count()
}

/// `Graph::add_node`: the new node comes last, its id is the number of
/// nodes before it, and the edges stay. A graph at capacity is left out:
/// there `add_node` panics.
#[verifier::external_body]
pub(crate) fn graph_add_node(graph: &mut Graph<(i64, i64), u64, Undirected, u32>, weight: (i64, i64)) -> (id:
    usize)
    requires
        graph_nodes(*old(graph)).len() < GRAPH_CAPACITY,
    ensures
        id == graph_nodes(*old(graph)).len(),
        graph_nodes(*final(graph)) == graph_nodes(*old(graph)).push(weight),
        graph_edges(*final(graph)) == graph_edges(*old(graph)),
{
    graph.add_node(weight).index()
}

/// `Graph::node_weight`: the coordinates stored at node `id`.
#[verifier::external_body]
pub(crate) fn graph_node_weight(graph: &Graph<(i64, i64), u64, Undirected, u32>, id: usize) -> (weight: Option<
    (i64, i64),
>)
    requires
        id < graph_nodes(*graph).len(),
    ensures
        weight == Some(graph_nodes(*graph)[id as int]),
{
    graph.node_weight(NodeIndex::new(id)).copied()
}

/// `Graph::add_edge`: the new edge comes last and the nodes stay. Ends
/// that are no nodes and a graph at capacity are left out: there
/// `add_edge` panics.
#[verifier::external_body]
pub(crate) fn graph_add_edge(
    graph: &mut Graph<(i64, i64), u64, Undirected, u32>,
    a: usize,
    b: usize,
    weight: u64,
)
    requires
        a < graph_nodes(*old(graph)).len(),
        b < graph_nodes(*old(graph)).len(),
        graph_edges(*old(graph)).len() < GRAPH_CAPACITY,
    ensures
        graph_nodes(*final(graph)) == graph_nodes(*old(graph)),
        graph_edges(*final(graph)) == graph_edges(*old(graph)).push((a, b, weight)),
{
    graph.add_edge(NodeIndex::new(a), NodeIndex::new(b), weight);
}

/// `Graph::contains_edge` on an undirected graph: whether some edge joins
/// `a` and `b`, whichever way it was added.
#[verifier::external_body]
pub(crate) fn graph_contains_edge(graph: &Graph<(i64, i64), u64, Undirected, u32>, a: usize, b: usize) -> (found:
    bool)
    requires
        a < graph_nodes(*graph).len(),
        b < graph_nodes(*graph).len(),
    ensures
        found == connected(graph_edges(*graph), a, b),
{
    graph.contains_edge(NodeIndex::new(a), NodeIndex::new(b))
}

/// Whether two node ids are the same.
fn same_node(a: usize, b: usize) -> (same: bool)
    ensures
        same == (a == b),
{
    a == b
}

/// The weight of an edge as a path cost.
fn step_cost(weight: u64) -> (cost: u128)
    ensures
        cost == weight,
{
    weight as u128
}

/// What is guessed of the way still to go: nothing.
fn no_estimate() -> (cost: u128)
    ensures
        cost == 0,
{
    0
}

/// `petgraph::algo::astar` with the estimate that is always zero: a
/// cheapest walk from `start` to `goal` with what it costs, or `None` where
/// no walk leads there. The walk is read back along the node each node was
/// last reached from, a chain that never closes, so no node comes twice.
/// Costs are summed in 128 bits, which fewer than 2^32 weights of 64 bits
/// cannot overflow.
#[verifier::external_body]
pub(crate) fn graph_astar(graph: &Graph<(i64, i64), u64, Undirected, u32>, start: usize, goal: usize) -> (found:
    Option<(u128, Vec<usize>)>)
    requires
        start < graph_nodes(*graph).len(),
        goal < graph_nodes(*graph).len(),
    ensures
        match found {
            Some((cost, path)) => is_shortest(graph_edges(*graph), start, goal, cost as nat, path@)
                && path@.no_duplicates(),
            None => !reachable(graph_edges(*graph), start, goal),
        },
{
    let found = astar(
        graph,
        NodeIndex::new(start),
        |node| same_node(node.index(), goal),
        |edge| step_cost(*edge.weight()),
        |_| no_estimate(),
    );
    match found {
        Some((cost, path)) => Some((cost, path.into_iter().map(|node| node.index()).collect())),
        None => None,
    }
}

/// Whether `begin` and `end` are nodes of the graph that an edge joins.
pub fn is_edge_already_in_graph(
    graph: &Graph<(i64, i64), u64, Undirected, u32>,
    begin: usize,
    end: usize,
) -> (found: bool)
    ensures
        found == (begin < graph_nodes(*graph).len() && end < graph_nodes(*graph).len() && connected(
            graph_edges(*graph),
            begin,
            end,
        )),
{
    let count = graph_node_count(graph);
    if begin < count && end < count {
        graph_contains_edge(graph, begin, end)
    } else {
        false
    }
}

} // verus!
