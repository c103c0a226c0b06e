//! How a roadmap grows: which samples become nodes, which neighbours a new
//! node is joined to, and what path answers a query.
use vstd::prelude::*;
use crate::collision_checker::CollisionChecker;
use crate::optimizer::Optimizer;
use crate::planner::graph_utils::{
    connected, is_shortest, joins, leads, reachable, walk_cost, GRAPH_CAPACITY,
};
use crate::planner::roadmap::{capped, holds, nearest_ids, Roadmap};
use crate::space::{in_range, Point};
use crate::types::COST_MAX;

verus! {

/// Whether a new node `me` is to be joined to `other`: they are different
/// nodes, no edge joins them yet, the graph takes another edge, and the
/// straight connection between them is free.
pub open spec fn wanted<C: CollisionChecker>(
    edges: Seq<(usize, usize, u64)>,
    nodes: Seq<Point>,
    me: usize,
    other: usize,
    checker: C,
) -> bool {
    &&& me != other
    &&& me < nodes.len()
    &&& other < nodes.len()
    &&& !connected(edges, me, other)
    &&& edges.len() < GRAPH_CAPACITY
    &&& !checker.edge_blocked(nodes[me as int], nodes[other as int])
}

/// The edges after `me` was joined to those of `ids` it is to be joined to,
/// one after the other, each at the optimizer's price.
pub open spec fn linked<C: CollisionChecker, O: Optimizer>(
    edges: Seq<(usize, usize, u64)>,
    nodes: Seq<Point>,
    me: usize,
    ids: Seq<usize>,
    checker: C,
    optimizer: O,
) -> Seq<(usize, usize, u64)>
    decreases ids.len(),
{
    if ids.len() == 0 {
        edges
    } else {
        let before = linked(edges, nodes, me, ids.drop_last(), checker, optimizer);
        let other = ids.last();
        if wanted(before, nodes, me, other, checker) {
            before.push((me, other, optimizer.edge_weight(nodes[me as int], nodes[other as int])))
        } else {
            before
        }
    }
}

/// Joins the node `me` to each of `ids` in turn, skipping `me` itself, the
/// nodes it is joined to already, and those the direct way to which is
/// obstructed.
pub fn connect_to_neighbors<C: CollisionChecker, O: Optimizer>(
    roadmap: &mut Roadmap,
    checker: &C,
    optimizer: &O,
    me: usize,
    ids: &Vec<usize>,
)
    requires
        old(roadmap).wf(),
        me < old(roadmap).nodes().len(),
        forall|i: int| 0 <= i < ids.len() ==> (#[trigger] ids[i]) < old(roadmap).nodes().len(),
    ensures
        final(roadmap).wf(),
        final(roadmap).nodes() == old(roadmap).nodes(),
        final(roadmap).edges() == linked(
            old(roadmap).edges(),
            old(roadmap).nodes(),
            me,
            ids@,
            *checker,
            *optimizer,
        ),
        forall|p: Point, k: usize| #[trigger]
            final(roadmap).neighbours(p, k) == old(roadmap).neighbours(p, k),
{
    let ghost nodes = roadmap.nodes();
    let ghost edges = roadmap.edges();
    let mut at: usize = 0;
    assert(ids@.take(0) =~= Seq::<usize>::empty());
    while at < ids.len()
        invariant
            roadmap.wf(),
            roadmap.nodes() == nodes,
            forall|p: Point, k: usize| #[trigger]
                roadmap.neighbours(p, k) == old(roadmap).neighbours(p, k),
            me < nodes.len(),
            0 <= at <= ids.len(),
            forall|i: int| 0 <= i < ids.len() ==> (#[trigger] ids[i]) < nodes.len(),
            roadmap.edges() == linked(edges, nodes, me, ids@.take(at as int), *checker, *optimizer),
        decreases ids.len() - at,
    {
        let other = ids[at];
        proof {
            assert(ids@.take(at as int + 1).drop_last() =~= ids@.take(at as int));
        }
        if other != me && !roadmap.has_edge(me, other) {
            match (roadmap.node(me), roadmap.node(other)) {
                (Some(here), Some(there)) => {
                    if !checker.is_edge_colliding(&here, &there) {
                        let weight = optimizer.get_edge_weight(here, there).2;
                        let _ = roadmap.insert_edge(me, other, weight);
                    }
                },
                _ => {},
            }
        }
        at = at + 1;
    }
    proof {
        assert(ids@.take(at as int) =~= ids@);
    }
}

/// The id of the node that holds `p`, where one does.
pub open spec fn index_of(nodes: Seq<Point>, p: Point) -> usize {
    choose|i: usize| i < nodes.len() && nodes[i as int] == p
}

/// The edges of `roadmap` after the node that holds `node` was joined to
/// its `k` nearest nodes, as the roadmap's index hands them out. Where no
/// node holds `node`, the edges as they are.
#[verifier::opaque]
pub open spec fn joined_exactly<C: CollisionChecker, O: Optimizer>(
    roadmap: Roadmap,
    node: Point,
    k: usize,
    checker: C,
    optimizer: O,
) -> Seq<(usize, usize, u64)> {
    if holds(roadmap.nodes(), node) {
        linked(
            roadmap.edges(),
            roadmap.nodes(),
            index_of(roadmap.nodes(), node),
            roadmap.neighbours(node, k),
            checker,
            optimizer,
        )
    } else {
        roadmap.edges()
    }
}

/// A neighbour that is not to be joined to stays so when edges are added.
pub proof fn lemma_unwanted_stays<C: CollisionChecker>(
    fewer: Seq<(usize, usize, u64)>,
    more: Seq<(usize, usize, u64)>,
    nodes: Seq<Point>,
    me: usize,
    other: usize,
    checker: C,
)
    requires
        fewer.is_prefix_of(more),
        !wanted(fewer, nodes, me, other, checker),
    ensures
        !wanted(more, nodes, me, other, checker),
{
    if connected(fewer, me, other) {
        let i = choose|i: int| 0 <= i < fewer.len() && joins(#[trigger] fewer[i], me, other);
        assert(more[i] == fewer[i]);
    }
}

/// Where no neighbour is to be joined to, joining adds nothing.
pub proof fn lemma_linked_settled<C: CollisionChecker, O: Optimizer>(
    edges: Seq<(usize, usize, u64)>,
    nodes: Seq<Point>,
    me: usize,
    ids: Seq<usize>,
    checker: C,
    optimizer: O,
)
    requires
        forall|i: int| 0 <= i < ids.len() ==> !wanted(edges, nodes, me, #[trigger] ids[i], checker),
    ensures
        linked(edges, nodes, me, ids, checker, optimizer) == edges,
    decreases ids.len(),
{
    if ids.len() > 0 {
        let fewer = ids.drop_last();
        assert forall|i: int| 0 <= i < fewer.len() implies !wanted(
            edges,
            nodes,
            me,
            #[trigger] fewer[i],
            checker,
        ) by {
            assert(fewer[i] == ids[i]);
        }
        lemma_linked_settled(edges, nodes, me, fewer, checker, optimizer);
        assert(!wanted(edges, nodes, me, ids[ids.len() - 1], checker));
    }
}

/// After a node was joined to its neighbours, none of them is to be joined
/// to any more.
pub proof fn lemma_linked_settles<C: CollisionChecker, O: Optimizer>(
    edges: Seq<(usize, usize, u64)>,
    nodes: Seq<Point>,
    me: usize,
    ids: Seq<usize>,
    checker: C,
    optimizer: O,
)
    ensures
        forall|i: int|
            0 <= i < ids.len() ==> !wanted(
                linked(edges, nodes, me, ids, checker, optimizer),
                nodes,
                me,
                #[trigger] ids[i],
                checker,
            ),
    decreases ids.len(),
{
    if ids.len() > 0 {
        let fewer = ids.drop_last();
        let before = linked(edges, nodes, me, fewer, checker, optimizer);
        let after = linked(edges, nodes, me, ids, checker, optimizer);
        let last = ids.last();
        lemma_linked_settles(edges, nodes, me, fewer, checker, optimizer);
        assert(before.is_prefix_of(after));
        assert forall|i: int| 0 <= i < ids.len() implies !wanted(
            after,
            nodes,
            me,
            #[trigger] ids[i],
            checker,
        ) by {
            if i < fewer.len() {
                assert(fewer[i] == ids[i]);
                lemma_unwanted_stays(before, after, nodes, me, ids[i], checker);
            } else {
                if wanted(before, nodes, me, last, checker) {
                    let at = before.len() as int;
                    assert(joins(after[at], me, last));
                    assert(connected(after, me, last));
                }
            }
        }
    }
}

/// Joining a node to the same neighbours a second time adds nothing.
pub proof fn lemma_linked_twice<C: CollisionChecker, O: Optimizer>(
    edges: Seq<(usize, usize, u64)>,
    nodes: Seq<Point>,
    me: usize,
    ids: Seq<usize>,
    checker: C,
    optimizer: O,
)
    ensures
        linked(
            linked(edges, nodes, me, ids, checker, optimizer),
            nodes,
            me,
            ids,
            checker,
            optimizer,
        ) == linked(edges, nodes, me, ids, checker, optimizer),
{
    lemma_linked_settles(edges, nodes, me, ids, checker, optimizer);
    lemma_linked_settled(
        linked(edges, nodes, me, ids, checker, optimizer),
        nodes,
        me,
        ids,
        checker,
        optimizer,
    );
}

/// Joining a node to its nearest nodes a second time, with no node put in
/// in between, adds no edge: whoever it was joined to, or could not be
/// joined to, the first time is skipped the second time.
pub proof fn lemma_joined_again<C: CollisionChecker, O: Optimizer>(
    first: Roadmap,
    second: Roadmap,
    node: Point,
    k: usize,
    checker: C,
    optimizer: O,
)
    requires
        second.nodes() == first.nodes(),
        second.edges() == joined_exactly(first, node, k, checker, optimizer),
        second.neighbours(node, k) == first.neighbours(node, k),
    ensures
        joined_exactly(second, node, k, checker, optimizer) == second.edges(),
{
    reveal(joined_exactly);
    if holds(first.nodes(), node) {
        lemma_linked_twice(
            first.edges(),
            first.nodes(),
            index_of(first.nodes(), node),
            first.neighbours(node, k),
            checker,
            optimizer,
        );
    }
}

/// Whether `after` is what joining the node that holds `node` to its `k`
/// nearest nodes may make of the edges `before`. Where no node holds
/// `node`, nothing is joined.
pub open spec fn joined_to_nearest<C: CollisionChecker, O: Optimizer>(
    before: Seq<(usize, usize, u64)>,
    nodes: Seq<Point>,
    node: Point,
    k: usize,
    checker: C,
    optimizer: O,
    after: Seq<(usize, usize, u64)>,
) -> bool {
    if holds(nodes, node) {
        exists|me: usize, ids: Seq<usize>|
            me < nodes.len() && nodes[me as int] == node && nearest_ids(nodes, node, k, ids)
                && after == linked(before, nodes, me, ids, checker, optimizer)
    } else {
        after == before
    }
}

/// Joins the node that holds `node` to its `k` nearest nodes: to each of
/// them that is another node, not joined to it yet, and reached by a free
/// straight connection. The nearest come from the spatial index, which
/// among equally near nodes may give any, but gives the same ones in the
/// same order as long as no node is put in.
pub fn connect_node<C: CollisionChecker, O: Optimizer>(
    roadmap: &mut Roadmap,
    checker: &C,
    optimizer: &O,
    node: Point,
    k: usize,
)
    requires
        old(roadmap).wf(),
    ensures
        final(roadmap).wf(),
        final(roadmap).nodes() == old(roadmap).nodes(),
        joined_to_nearest(
            old(roadmap).edges(),
            old(roadmap).nodes(),
            node,
            k,
            *checker,
            *optimizer,
            final(roadmap).edges(),
        ),
        final(roadmap).edges() == joined_exactly(*old(roadmap), node, k, *checker, *optimizer),
        forall|p: Point, j: usize| #[trigger]
            final(roadmap).neighbours(p, j) == old(roadmap).neighbours(p, j),
{
    proof {
        reveal(joined_exactly);
    }
    match roadmap.node_id(&node) {
        Some(me) => {
            proof {
                roadmap.lemma_wf();
                let chosen = index_of(roadmap.nodes(), node);
                assert(me < roadmap.nodes().len() && roadmap.nodes()[me as int] == node);
                assert(roadmap.nodes()[chosen as int] == roadmap.nodes()[me as int]);
                assert(chosen == me);
            }
            let ids = roadmap.k_nearest(&node, k);
            connect_to_neighbors(roadmap, checker, optimizer, me, &ids);
            proof {
                assert(me < old(roadmap).nodes().len() && old(roadmap).nodes()[me as int] == node
                    && nearest_ids(old(roadmap).nodes(), node, k, ids@) && roadmap.edges() == linked(
                    old(roadmap).edges(),
                    old(roadmap).nodes(),
                    me,
                    ids@,
                    *checker,
                    *optimizer,
                ));
            }
        },
        None => {},
    }
}

/// Whether a roadmap with the given nodes takes `node` as a new node of a
/// planner that consults `checker`: the configuration is free, in range,
/// not a node yet, and the graph has room.
pub open spec fn admits<C: CollisionChecker>(nodes: Seq<Point>, node: Point, checker: C) -> bool {
    &&& !checker.node_blocked(node)
    &&& !holds(nodes, node)
    &&& in_range(node)
    &&& nodes.len() < GRAPH_CAPACITY
}

/// Makes `node` a node of the roadmap if the roadmap admits it, and says
/// whether it did. Edges are left alone.
pub fn add_free_node<C: CollisionChecker>(roadmap: &mut Roadmap, checker: &C, node: Point) -> (added:
    bool)
    requires
        old(roadmap).wf(),
    ensures
        final(roadmap).wf(),
        final(roadmap).edges() == old(roadmap).edges(),
        added == admits(old(roadmap).nodes(), node, *checker),
        final(roadmap).nodes() == if added {
            old(roadmap).nodes().push(node)
        } else {
            old(roadmap).nodes()
        },
{
    if checker.is_node_colliding(&node) {
        return false;
    }
    match roadmap.node_id(&node) {
        Some(_) => {
            return false;
        },
        None => {},
    }
    match roadmap.insert_node(node) {
        Some(_) => true,
        None => false,
    }
}

/// Whether a roadmap that has taken up the first `at` of `added` as new
/// nodes, and whose edges are `before`, may take up the next one and come
/// to have the edges `next`: it admits that one, and joins it, once it is a
/// node, to its `k` nearest nodes.
pub open spec fn takes_next<C: CollisionChecker, O: Optimizer>(
    nodes: Seq<Point>,
    added: Seq<Point>,
    at: int,
    k: usize,
    checker: C,
    optimizer: O,
    before: Seq<(usize, usize, u64)>,
    next: Seq<(usize, usize, u64)>,
) -> bool {
    &&& admits(nodes + added.take(at), added[at], checker)
    &&& joined_to_nearest(before, nodes + added.take(at + 1), added[at], k, checker, optimizer, next)
}

/// Whether `stages` are the edges that a roadmap with `nodes` and `edges`
/// may have, one stage after the other, while it takes up each of `added`
/// in turn.
pub open spec fn stages_of<C: CollisionChecker, O: Optimizer>(
    nodes: Seq<Point>,
    edges: Seq<(usize, usize, u64)>,
    added: Seq<Point>,
    k: usize,
    checker: C,
    optimizer: O,
    stages: Seq<Seq<(usize, usize, u64)>>,
) -> bool {
    &&& stages.len() == added.len() + 1
    &&& stages[0] == edges
    &&& forall|at: int|
        0 <= at < added.len() ==> takes_next(
            nodes,
            added,
            at,
            k,
            checker,
            optimizer,
            #[trigger] stages[at],
            stages[at + 1],
        )
}

/// Whether `after` is what the edges of a roadmap with `nodes` and `edges`
/// may become when it takes up each of `added` in turn as a new node and
/// joins it, as soon as it is a node, to its `k` nearest nodes.
pub open spec fn taken_in_turn<C: CollisionChecker, O: Optimizer>(
    nodes: Seq<Point>,
    edges: Seq<(usize, usize, u64)>,
    added: Seq<Point>,
    k: usize,
    checker: C,
    optimizer: O,
    after: Seq<(usize, usize, u64)>,
) -> bool {
    exists|stages: Seq<Seq<(usize, usize, u64)>>| #[trigger]
        stages_of(nodes, edges, added, k, checker, optimizer, stages) && stages.last() == after
}

/// A roadmap that has taken up some nodes in turn and takes up one more
/// has taken them all up in turn.
pub proof fn lemma_taken_one_more<C: CollisionChecker, O: Optimizer>(
    nodes: Seq<Point>,
    edges: Seq<(usize, usize, u64)>,
    added: Seq<Point>,
    node: Point,
    k: usize,
    checker: C,
    optimizer: O,
    between: Seq<(usize, usize, u64)>,
    after: Seq<(usize, usize, u64)>,
)
    requires
        taken_in_turn(nodes, edges, added, k, checker, optimizer, between),
        admits(nodes + added, node, checker),
        joined_to_nearest(between, nodes + added.push(node), node, k, checker, optimizer, after),
    ensures
        taken_in_turn(nodes, edges, added.push(node), k, checker, optimizer, after),
{
    let stages = choose|stages: Seq<Seq<(usize, usize, u64)>>| #[trigger]
        stages_of(nodes, edges, added, k, checker, optimizer, stages) && stages.last() == between;
    let longer = added.push(node);
    let more = stages.push(after);
    assert forall|at: int| 0 <= at < longer.len() implies takes_next(
        nodes,
        longer,
        at,
        k,
        checker,
        optimizer,
        #[trigger] more[at],
        more[at + 1],
    ) by {
        assert(longer.take(at) =~= added.take(at));
        if at < added.len() {
            assert(longer.take(at + 1) =~= added.take(at + 1));
            assert(takes_next(nodes, added, at, k, checker, optimizer, stages[at], stages[at + 1]));
        } else {
            assert(added.take(at) =~= added);
            assert(longer.take(at + 1) =~= longer);
            assert(more[at] == between);
        }
    }
    assert(stages_of(nodes, edges, longer, k, checker, optimizer, more) && more.last() == after);
}

/// A roadmap that takes up nothing keeps its edges.
pub proof fn lemma_taken_none<C: CollisionChecker, O: Optimizer>(
    nodes: Seq<Point>,
    edges: Seq<(usize, usize, u64)>,
    k: usize,
    checker: C,
    optimizer: O,
)
    ensures
        taken_in_turn(nodes, edges, Seq::<Point>::empty(), k, checker, optimizer, edges),
{
    let stages = seq![edges];
    assert(stages_of(nodes, edges, Seq::<Point>::empty(), k, checker, optimizer, stages)
        && stages.last() == edges);
}

/// Whether `found` answers the query from `start` to `goal` on a roadmap
/// with the given nodes and edges: a cheapest path between the nodes that
/// hold them, which visits no node twice, with its cost, capped at the
/// largest cost; nothing where no path joins them or a node for either is
/// missing.
pub open spec fn is_answer(
    nodes: Seq<Point>,
    edges: Seq<(usize, usize, u64)>,
    start: Point,
    goal: Point,
    found: Option<(u64, Vec<usize>)>,
) -> bool {
    match found {
        Some((cost, path)) => {
            &&& exists|from: usize, to: usize, total: nat|
                from < nodes.len() && to < nodes.len() && nodes[from as int] == start
                    && nodes[to as int] == goal && is_shortest(edges, from, to, total, path@)
                    && cost == capped(total)
            &&& forall|i: int| 0 <= i < path.len() ==> (#[trigger] path[i]) < nodes.len()
            &&& path@.no_duplicates()
        },
        None => forall|from: usize, to: usize|
            from < nodes.len() && to < nodes.len() && nodes[from as int] == start
                && nodes[to as int] == goal ==> !reachable(edges, from, to),
    }
}

/// Searches the roadmap afresh for a cheapest path from `start` to `goal`.
pub fn answer(roadmap: &Roadmap, start: &Point, goal: &Point) -> (found: Option<(u64, Vec<usize>)>)
    requires
        roadmap.wf(),
    ensures
        is_answer(roadmap.nodes(), roadmap.edges(), *start, *goal, found),
{
    proof {
        roadmap.lemma_wf();
    }
    let from = match roadmap.node_id(start) {
        Some(from) => from,
        None => {
            return None;
        },
    };
    let to = match roadmap.node_id(goal) {
        Some(to) => to,
        None => {
            return None;
        },
    };
    let found = roadmap.shortest_path(from, to);
    proof {
        match found {
            Some((cost, ref path)) => {
                let total = choose|total: nat|
                    is_shortest(roadmap.edges(), from, to, total, path@) && cost == capped(total);
                assert(from < roadmap.nodes().len() && to < roadmap.nodes().len()
                    && roadmap.nodes()[from as int] == *start && roadmap.nodes()[to as int] == *goal
                    && is_shortest(roadmap.edges(), from, to, total, path@) && cost == capped(total));
            },
            None => {},
        }
    }
    found
}

/// Whether `edge` joins two different nodes by a free straight connection
/// at the optimizer's price.
pub open spec fn free_edge<C: CollisionChecker, O: Optimizer>(
    edge: (usize, usize, u64),
    nodes: Seq<Point>,
    checker: C,
    optimizer: O,
) -> bool {
    &&& edge.0 < nodes.len()
    &&& edge.1 < nodes.len()
    &&& edge.0 != edge.1
    &&& !checker.edge_blocked(nodes[edge.0 as int], nodes[edge.1 as int])
    &&& edge.2 == optimizer.edge_weight(nodes[edge.0 as int], nodes[edge.1 as int])
}

/// Whether `after` is `before` with nothing but free edges at the
/// optimizer's price added behind.
pub open spec fn grown<C: CollisionChecker, O: Optimizer>(
    before: Seq<(usize, usize, u64)>,
    after: Seq<(usize, usize, u64)>,
    nodes: Seq<Point>,
    checker: C,
    optimizer: O,
) -> bool {
    &&& before.is_prefix_of(after)
    &&& forall|e: int|
        before.len() <= e < after.len() ==> free_edge(#[trigger] after[e], nodes, checker, optimizer)
}

/// Joining a node to neighbours adds nothing but free edges at the
/// optimizer's price.
pub proof fn lemma_linked_grows<C: CollisionChecker, O: Optimizer>(
    edges: Seq<(usize, usize, u64)>,
    nodes: Seq<Point>,
    me: usize,
    ids: Seq<usize>,
    checker: C,
    optimizer: O,
)
    ensures
        grown(edges, linked(edges, nodes, me, ids, checker, optimizer), nodes, checker, optimizer),
    decreases ids.len(),
{
    if ids.len() > 0 {
        lemma_linked_grows(edges, nodes, me, ids.drop_last(), checker, optimizer);
    }
}

/// What joining a node to its nearest nodes adds is free edges at the
/// optimizer's price.
pub proof fn lemma_joined_grows<C: CollisionChecker, O: Optimizer>(
    before: Seq<(usize, usize, u64)>,
    nodes: Seq<Point>,
    node: Point,
    k: usize,
    checker: C,
    optimizer: O,
    after: Seq<(usize, usize, u64)>,
)
    requires
        joined_to_nearest(before, nodes, node, k, checker, optimizer, after),
    ensures
        grown(before, after, nodes, checker, optimizer),
{
    if holds(nodes, node) {
        let (me, ids) = choose|me: usize, ids: Seq<usize>|
            me < nodes.len() && nodes[me as int] == node && nearest_ids(nodes, node, k, ids)
                && after == linked(before, nodes, me, ids, checker, optimizer);
        lemma_linked_grows(before, nodes, me, ids, checker, optimizer);
    }
}

/// Edges that grew twice have grown, also where nodes were added in
/// between.
pub proof fn lemma_grown_twice<C: CollisionChecker, O: Optimizer>(
    first: Seq<(usize, usize, u64)>,
    second: Seq<(usize, usize, u64)>,
    third: Seq<(usize, usize, u64)>,
    nodes: Seq<Point>,
    later: Seq<Point>,
    checker: C,
    optimizer: O,
)
    requires
        grown(first, second, nodes, checker, optimizer),
        grown(second, third, later, checker, optimizer),
        nodes.is_prefix_of(later),
    ensures
        grown(first, third, later, checker, optimizer),
{
    assert forall|e: int| first.len() <= e < third.len() implies free_edge(
        #[trigger] third[e],
        later,
        checker,
        optimizer,
    ) by {
        if e < second.len() {
            assert(third[e] == second[e]);
            assert(free_edge(second[e], nodes, checker, optimizer));
            assert(later[second[e].0 as int] == nodes[second[e].0 as int]);
            assert(later[second[e].1 as int] == nodes[second[e].1 as int]);
        }
    }
}

/// Where every straight connection is obstructed, edges that grew have
/// stayed as they were.
pub proof fn lemma_grown_blocked<C: CollisionChecker, O: Optimizer>(
    before: Seq<(usize, usize, u64)>,
    after: Seq<(usize, usize, u64)>,
    nodes: Seq<Point>,
    checker: C,
    optimizer: O,
)
    requires
        grown(before, after, nodes, checker, optimizer),
        forall|a: Point, b: Point| #[trigger] checker.edge_blocked(a, b),
    ensures
        after == before,
{
    if after.len() > before.len() {
        assert(free_edge(after[before.len() as int], nodes, checker, optimizer));
    }
    assert(after =~= before);
}

/// The cost a planner reports for `solution`.
pub open spec fn cost_of(solution: Option<(u64, Vec<usize>)>) -> u64 {
    match solution {
        Some((cost, _)) => cost,
        None => COST_MAX,
    }
}

/// The node ids along `found`; none where nothing was found.
pub open spec fn path_of(found: Option<(u64, Vec<usize>)>) -> Seq<usize> {
    match found {
        Some((_, path)) => path@,
        None => Seq::empty(),
    }
}

/// An answer runs from the start to the goal: its first node holds the
/// start and its last node holds the goal.
pub proof fn lemma_answer_ends(
    nodes: Seq<Point>,
    edges: Seq<(usize, usize, u64)>,
    start: Point,
    goal: Point,
    found: Option<(u64, Vec<usize>)>,
)
    requires
        is_answer(nodes, edges, start, goal, found),
        found is Some,
    ensures
        path_of(found).len() >= 1,
        nodes[path_of(found)[0] as int] == start,
        nodes[path_of(found).last() as int] == goal,
{
    let path = path_of(found);
    let cost = cost_of(found);
    let (from, to, total) = choose|from: usize, to: usize, total: nat|
        from < nodes.len() && to < nodes.len() && nodes[from as int] == start && nodes[to as int]
            == goal && is_shortest(edges, from, to, total, path) && cost == capped(total);
    let steps = choose|steps: Seq<int>|
        leads(edges, path, steps, from, to) && walk_cost(edges, steps)
            == total;
    assert(path[0] == from);
    assert(path.last() == to);
}

/// Without edges no path leads from a node to another one.
pub proof fn lemma_no_edges_no_way(edges: Seq<(usize, usize, u64)>, from: usize, to: usize)
    requires
        edges.len() == 0,
        from != to,
    ensures
        !reachable(edges, from, to),
{
    if reachable(edges, from, to) {
        let (nodes, steps) = choose|nodes: Seq<usize>, steps: Seq<int>|
            leads(edges, nodes, steps, from, to);
        if steps.len() > 0 {
            let first = steps[0];
            assert(0 <= first < edges.len());
        }
        assert(nodes.len() == 1);
        assert(nodes[0] == nodes.last());
    }
}

/// A collision checker that rejects every connection leaves the planner
/// without an answer: if a roadmap had no edges, has grown, and every
/// straight connection is obstructed, then the answer to a query between
/// two different points is none, and the cost reported is the largest.
pub proof fn lemma_every_edge_rejected<C: CollisionChecker, O: Optimizer>(
    nodes: Seq<Point>,
    before: Seq<(usize, usize, u64)>,
    after: Seq<(usize, usize, u64)>,
    start: Point,
    goal: Point,
    checker: C,
    optimizer: O,
    found: Option<(u64, Vec<usize>)>,
)
    requires
        before.len() == 0,
        grown(before, after, nodes, checker, optimizer),
        forall|a: Point, b: Point| #[trigger] checker.edge_blocked(a, b),
        start != goal,
        is_answer(nodes, after, start, goal, found),
    ensures
        found is None,
        after.len() == 0,
        cost_of(found) == COST_MAX,
{
    lemma_grown_blocked(before, after, nodes, checker, optimizer);
    if found is Some {
        let path = path_of(found);
        let cost = cost_of(found);
        let (from, to, total) = choose|from: usize, to: usize, total: nat|
            from < nodes.len() && to < nodes.len() && nodes[from as int] == start
                && nodes[to as int] == goal && is_shortest(after, from, to, total, path) && cost
                == capped(total);
        lemma_no_edges_no_way(after, from, to);
        let steps = choose|steps: Seq<int>|
            leads(after, path, steps, from, to) && walk_cost(
                after,
                steps,
            ) == total;
        assert(reachable(after, from, to));
    }
}

} // verus!
