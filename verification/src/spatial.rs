//! The spatial index: a bulk-loaded R-tree over the current positions.
//!
//! The index is a per-tick value: built in one bulk operation from the
//! position snapshot, queried for nearest neighbors during the solver
//! pass, and discarded. The tree itself comes from the rstar crate; Verus
//! sees it only through the trusted wrappers below, whose contracts speak
//! of the sequence of records the tree was loaded from. Both bulk loading
//! (overlap-minimizing top-down) and the nearest-neighbor iteration are
//! deterministic functions of that sequence, so a query result is named
//! as a function of the load sequence and the query alone.

use vstd::prelude::*;
use rstar::RTree;
use rstar::primitives::GeomWithData;

verus! {

/// Largest coordinate magnitude the index accepts: keeps the squared
/// distances rstar computes internally within machine integers.
pub const SPATIAL_LIMIT: i64 = 0x2000_0000;

/// A bulk-loaded R-tree of `(id, x, y)` point records. The tree is opaque
/// to Verus; the wrappers below carry its contract.
#[verifier::external_body]
pub struct SpatialIndex {
    tree: RTree<GeomWithData<[i64; 2], u64>>,
}

/// The records the index was bulk-loaded from, in load order. Verus knows
/// of this sequence only what the trusted wrappers state.
pub uninterp spec fn index_points(t: SpatialIndex) -> Seq<(u64, i64, i64)>;

/// The neighbor sequence rstar yields for a query: the loaded records in
/// ascending order of squared distance to the query point, cut to the
/// first `k`. Loading and querying are deterministic, so the result is a
/// function of the load sequence and the query alone.
pub uninterp spec fn nearest_of(points: Seq<(u64, i64, i64)>, qx: int, qy: int, k: int) -> Seq<
    (u64, i64, i64),
>;

/// Squared distance from a loaded record to a query point.
pub open spec fn point_dist2(p: (u64, i64, i64), qx: int, qy: int) -> int {
    (p.1 - qx) * (p.1 - qx) + (p.2 - qy) * (p.2 - qy)
}

/// Every record of the sequence lies within the index's coordinate bound.
pub open spec fn points_bounded(points: Seq<(u64, i64, i64)>) -> bool {
    forall|i: int|
        0 <= i < points.len() ==> {
            &&& -SPATIAL_LIMIT <= (#[trigger] points[i]).1 <= SPATIAL_LIMIT
            &&& -SPATIAL_LIMIT <= points[i].2 <= SPATIAL_LIMIT
        }
}

/// Relies on rstar::RTree::bulk_load: builds a tree holding exactly the
/// given elements, by the deterministic overlap-minimizing top-down
/// algorithm.
#[verifier::external_body]
fn rtree_bulk_load(points: Vec<(u64, i64, i64)>) -> (t: SpatialIndex)
    ensures
        index_points(t) == points@,
{
    let geoms: Vec<GeomWithData<[i64; 2], u64>> = points
        .iter()
        .map(|p| GeomWithData::new([p.1, p.2], p.0))
        .collect();
    SpatialIndex { tree: RTree::bulk_load(geoms) }
}

/// Relies on rstar::RTree::nearest_neighbor_iter: yields all elements of
/// the tree sorted by ascending squared distance to the query point; the
/// wrapper keeps the first `k`. The coordinate bounds keep the squared
/// distances rstar computes within machine integers.
#[verifier::external_body]
fn rtree_nearest_k(t: &SpatialIndex, qx: i64, qy: i64, k: usize) -> (r: Vec<(u64, i64, i64)>)
    requires
        points_bounded(index_points(*t)),
        -SPATIAL_LIMIT <= qx <= SPATIAL_LIMIT,
        -SPATIAL_LIMIT <= qy <= SPATIAL_LIMIT,
    ensures
        r@ == nearest_of(index_points(*t), qx as int, qy as int, k as int),
        r@.len() == if k as int <= index_points(*t).len() as int {
            k as int
        } else {
            index_points(*t).len() as int
        },
        forall|i: int| 0 <= i < r@.len() ==> index_points(*t).contains(#[trigger] r@[i]),
        forall|i: int, j: int|
            0 <= i <= j < r@.len() ==> point_dist2(#[trigger] r@[i], qx as int, qy as int)
                <= point_dist2(#[trigger] r@[j], qx as int, qy as int),
{
    t.tree
        .nearest_neighbor_iter([qx, qy])
        .take(k)
        .map(|g| (g.data, g.geom()[0], g.geom()[1]))
        .collect()
}

/// Builds the per-tick index from the position snapshot, in one bulk
/// operation. An empty snapshot yields an index that answers every query
/// with the empty sequence.
pub fn build_index(points: Vec<(u64, i64, i64)>) -> (t: SpatialIndex)
    ensures
        index_points(t) == points@,
{
    rtree_bulk_load(points)
}

/// Queries the `k` nearest records to a point, in ascending distance
/// order.
pub fn query_nearest(t: &SpatialIndex, qx: i64, qy: i64, k: usize) -> (r: Vec<(u64, i64, i64)>)
    requires
        points_bounded(index_points(*t)),
        -SPATIAL_LIMIT <= qx <= SPATIAL_LIMIT,
        -SPATIAL_LIMIT <= qy <= SPATIAL_LIMIT,
    ensures
        r@ == nearest_of(index_points(*t), qx as int, qy as int, k as int),
        r@.len() == if k as int <= index_points(*t).len() as int {
            k as int
        } else {
            index_points(*t).len() as int
        },
        forall|i: int| 0 <= i < r@.len() ==> index_points(*t).contains(#[trigger] r@[i]),
        forall|i: int, j: int|
            0 <= i <= j < r@.len() ==> point_dist2(#[trigger] r@[i], qx as int, qy as int)
                <= point_dist2(#[trigger] r@[j], qx as int, qy as int),
{
    rtree_nearest_k(t, qx, qy, k)
}

} // verus!
