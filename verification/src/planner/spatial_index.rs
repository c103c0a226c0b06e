//! The spatial index that answers which stored coordinates lie nearest to
//! a query.
use vstd::prelude::*;
use vstd::multiset::Multiset;
use rstar::RTree;
use crate::types::coordinate_in_range;

verus! {

/// An r-tree over the coordinates of the nodes that were put in. It holds
/// every coordinate widened to 128 bits, in which the tree's arithmetic on
/// coordinates in range cannot overflow.
#[verifier::external_body]
pub struct SpatialIndex {
    tree: RTree<[i128; 2]>,
}

/// The coordinates that `index` holds, each as often as it was put in.
pub uninterp spec fn index_points(index: SpatialIndex) -> Multiset<(i64, i64)>;

/// The coordinates that `index` holds in the order in which a walk from
/// the nearest to `query` to the farthest hands them out. The order is that
/// of the index as it is built: two walks over one index towards one query
/// hand out the same coordinates in the same order.
pub uninterp spec fn index_order(index: SpatialIndex, query: (i64, i64)) -> Seq<(i64, i64)>;

/// Whether both coordinates of `c` lie in the range a planner accepts.
pub open spec fn pair_in_range(c: (i64, i64)) -> bool {
    coordinate_in_range(c.0) && coordinate_in_range(c.1)
}

/// Whether everything in `points` lies in range.
pub open spec fn all_in_range(points: Multiset<(i64, i64)>) -> bool {
    forall|c: (i64, i64)| points.count(c) > 0 ==> pair_in_range(c)
}

/// The square of the straight-line distance between `a` and `b`.
pub open spec fn gap_squared(a: (i64, i64), b: (i64, i64)) -> int {
    (a.0 - b.0) * (a.0 - b.0) + (a.1 - b.1) * (a.1 - b.1)
}

/// Whether `found` is what a query for the `k` nearest to `query` may
/// give on `points`: `k` of them, or all where there are fewer; nearest
/// first; none nearer left behind. Among equally near ones any may
/// come.
pub open spec fn is_k_nearest(
    points: Multiset<(i64, i64)>,
    query: (i64, i64),
    k: usize,
    found: Seq<(i64, i64)>,
) -> bool {
    &&& found.len() == if k <= points.len() {
        k as nat
    } else {
        points.len()
    }
    &&& found.to_multiset().subset_of(points)
    &&& forall|i: int, j: int|
        0 <= i <= j < found.len() ==> gap_squared(#[trigger] found[i], query) <= gap_squared(
            #[trigger] found[j],
            query,
        )
    &&& forall|c: (i64, i64), i: int|
        points.count(c) > found.to_multiset().count(c) && 0 <= i < found.len() ==> gap_squared(
            #[trigger] found[i],
            query,
        ) <= #[trigger] gap_squared(c, query)
}

/// `RTree::new`: an index that holds nothing.
#[verifier::external_body]
pub(crate) fn index_new() -> (index: SpatialIndex)
    ensures
        index_points(index) == Multiset::<(i64, i64)>::empty(),
{
    SpatialIndex { tree: RTree::new() }
}

/// `RTree::size`: how many coordinates the index holds.
#[verifier::external_body]
pub(crate) fn index_size(index: &SpatialIndex) -> (size: usize)
    ensures
        size == index_points(*index).len(),
{
    index.tree.size()
}

/// `RTree::insert`: the index holds `point` once more than before, and
/// everything else as before.
#[verifier::external_body]
pub(crate) fn index_insert(index: &mut SpatialIndex, point: (i64, i64))
    requires
        all_in_range(index_points(*old(index))),
        pair_in_range(point),
    ensures
        index_points(*final(index)) == index_points(*old(index)).insert(point),
{
    index.tree.insert([point.0 as i128, point.1 as i128]);
}

/// `RTree::nearest_neighbor`: a coordinate of the index that none is
/// nearer to `query` than, or `None` on an empty index.
#[verifier::external_body]
pub(crate) fn index_nearest(index: &SpatialIndex, query: (i64, i64)) -> (found: Option<(i64, i64)>)
    requires
        all_in_range(index_points(*index)),
        pair_in_range(query),
    ensures
        match found {
            Some(c) => index_points(*index).count(c) > 0 && forall|d: (i64, i64)|
                index_points(*index).count(d) > 0 ==> gap_squared(c, query) <= #[trigger] gap_squared(
                    d,
                    query,
                ),
            None => index_points(*index).len() == 0,
        },
{
    index.tree.nearest_neighbor([query.0 as i128, query.1 as i128]).map(
        |c| (c[0] as i64, c[1] as i64),
    )
}

/// The first `k` of `RTree::nearest_neighbor_iter`, which walks the index
/// from the nearest to `query` to the farthest and hands out every
/// coordinate it holds: the beginning of `index_order`.
#[verifier::external_body]
pub(crate) fn index_k_nearest(index: &SpatialIndex, query: (i64, i64), k: usize) -> (found: Vec<(i64, i64)>)
    requires
        all_in_range(index_points(*index)),
        pair_in_range(query),
    ensures
        is_k_nearest(index_points(*index), query, k, found@),
        found@.len() <= index_order(*index, query).len(),
        found@ == index_order(*index, query).take(found@.len() as int),
{
    index.tree.nearest_neighbor_iter([query.0 as i128, query.1 as i128]).take(k).map(
        |c| (c[0] as i64, c[1] as i64),
    ).collect()
}

} // verus!
