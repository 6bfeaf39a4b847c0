//! Properties of the simulation stated and proved in their own right.
//!
//! The velocity band, the force clamp and the zero-neighbor base cases are
//! stated directly in the contracts of the integrator, the solver pass and
//! the three rule functions; the laws here relate whole families of passes
//! and queries.

use vstd::prelude::*;
use vstd::arithmetic::div_mod::lemma_fundamental_div_mod;
use vstd::arithmetic::div_mod::lemma_fundamental_div_mod_converse_mod;
use vstd::arithmetic::div_mod::lemma_mod_division_less_than_divisor;
use crate::engine::Simulation;
use crate::spatial::{SpatialIndex, index_points, nearest_of};

verus! {

/// Wake coverage: over any `w` consecutive solver passes, every entity id
/// is selected as active exactly once — there is one pass counter in the
/// window `[g, g + w)` on which the entity wakes, and no second one.
pub proof fn lemma_wake_coverage(id: int, g: int, w: int)
    requires
        w >= 1,
        0 <= id,
        0 <= g,
    ensures
        exists|k: int| g <= k < g + w && #[trigger] Simulation::wake_active(id, k, w),
        forall|k1: int, k2: int|
            g <= k1 < g + w && g <= k2 < g + w && #[trigger] Simulation::wake_active(id, k1, w)
                && #[trigger] Simulation::wake_active(id, k2, w) ==> k1 == k2,
{
    let r = id % w;
    let gr = g % w;
    lemma_mod_division_less_than_divisor(id, w);
    lemma_mod_division_less_than_divisor(g, w);
    lemma_fundamental_div_mod(g, w);
    let q = g / w;
    let k = if r >= gr {
        g - gr + r
    } else {
        g - gr + r + w
    };
    assert(g <= k < g + w);
    if r >= gr {
        assert(k == q * w + r) by (nonlinear_arith)
            requires
                g == w * q + gr,
                k == g - gr + r,
        ;
        lemma_fundamental_div_mod_converse_mod(k, w, q, r);
    } else {
        assert(k == (q + 1) * w + r) by (nonlinear_arith)
            requires
                g == w * q + gr,
                k == g - gr + r + w,
        ;
        lemma_fundamental_div_mod_converse_mod(k, w, q + 1, r);
    }
    assert(Simulation::wake_active(id, k, w));
    assert forall|k1: int, k2: int|
        g <= k1 < g + w && g <= k2 < g + w && #[trigger] Simulation::wake_active(id, k1, w)
            && #[trigger] Simulation::wake_active(id, k2, w) implies k1 == k2 by {
        lemma_fundamental_div_mod(k1, w);
        lemma_fundamental_div_mod(k2, w);
        let q1 = k1 / w;
        let q2 = k2 / w;
        assert(k2 - k1 == w * (q2 - q1)) by (nonlinear_arith)
            requires
                k1 == w * q1 + k1 % w,
                k2 == w * q2 + k2 % w,
                k1 % w == k2 % w,
        ;
        assert(q1 == q2) by (nonlinear_arith)
            requires
                k2 - k1 == w * (q2 - q1),
                -w < k2 - k1 < w,
                w >= 1,
        ;
    }
}

/// Spatial index determinism: two indexes bulk-loaded from the same point
/// sequence answer every nearest-neighbor query with the same ordered
/// sequence, because both loading and querying are functions of the load
/// sequence and the query alone.
pub proof fn lemma_spatial_determinism(t1: SpatialIndex, t2: SpatialIndex, qx: int, qy: int, k: int)
    requires
        index_points(t1) == index_points(t2),
    ensures
        nearest_of(index_points(t1), qx, qy, k) == nearest_of(index_points(t2), qx, qy, k),
{
}

} // verus!
