//! Rigid tracer: carries the tracer point along when the coupler link moves.
//!
//! The tracer's offset from the crank joint is re-derived from the previous
//! configuration on every call, and rotated by the turn the coupler made
//! between the previous orientation `theta` (from the old crank joint toward
//! the old rocker joint) and the new orientation `psi`. Instead of the
//! angles themselves the engine uses their direction vectors `u` (old) and
//! `v` (new): with `dot = u·v` and `crs = u×v` the rotation by
//! `theta - psi` sends the offset `(dx, dy)` to
//!
//! ```text
//! ((dx*dot - dy*crs) / m, (dy*dot + dx*crs) / m),    m = |u|*|v|
//! ```
//!
//! computed here with `m` as the floor square root of `|u|^2 * |v|^2` and
//! truncating division. A coupler of zero length has no orientation; its
//! direction falls back to the positive x axis, which is where a zero vector
//! points by the `atan2` convention.

use vstd::prelude::*;
use crate::geometry::Point;
use crate::geometry::COORD_BOUND;
use crate::geometry::div_trunc;
use crate::geometry::div_trunc_i128;
use crate::geometry::in_range;
use crate::geometry::isqrt;
use crate::geometry::lemma_div_trunc_multiple;
use crate::geometry::lemma_mul_bound;
use crate::geometry::lemma_sqrt_floor_of_square;
use crate::geometry::lemma_square_nonneg;
use crate::geometry::pt_in_range;
use crate::geometry::sqrt_floor;
use crate::linkage::LinkageState;
use crate::linkage::state_in_range;

verus! {

/// A vector standing for a direction; the zero vector falls back to the
/// positive x axis, the direction `atan2` assigns it.
pub open spec fn fallback_dir(x: int, y: int) -> (int, int) {
    if x == 0 && y == 0 {
        (1int, 0int)
    } else {
        (x, y)
    }
}

/// Old coupler direction: from the crank joint toward the rocker joint.
pub open spec fn trace_old_dir(st: LinkageState) -> (int, int) {
    fallback_dir(
        st.rocker_joint.x as int - st.crank_joint.x as int,
        st.rocker_joint.y as int - st.crank_joint.y as int,
    )
}

/// New coupler direction: from the new crank joint toward the new rocker
/// joint.
pub open spec fn trace_new_dir(new_crank: Point, new_rocker: Point) -> (int, int) {
    fallback_dir(
        new_rocker.x as int - new_crank.x as int,
        new_rocker.y as int - new_crank.y as int,
    )
}

/// Denominator of the tracer rotation: floor of `|u| * |v|`, computed as the
/// floor square root of the exact product of squared lengths.
pub open spec fn trace_den(new_crank: Point, new_rocker: Point, st: LinkageState) -> int {
    let u = trace_old_dir(st);
    let v = trace_new_dir(new_crank, new_rocker);
    sqrt_floor((u.0 * u.0 + u.1 * u.1) * (v.0 * v.0 + v.1 * v.1))
}

/// Numerator of the rotated offset's x component.
pub open spec fn trace_num_x(new_crank: Point, new_rocker: Point, st: LinkageState) -> int {
    let u = trace_old_dir(st);
    let v = trace_new_dir(new_crank, new_rocker);
    let dot = u.0 * v.0 + u.1 * v.1;
    let crs = u.0 * v.1 - u.1 * v.0;
    let dx = st.tracer_point.x as int - st.crank_joint.x as int;
    let dy = st.tracer_point.y as int - st.crank_joint.y as int;
    dx * dot - dy * crs
}

/// Numerator of the rotated offset's y component.
pub open spec fn trace_num_y(new_crank: Point, new_rocker: Point, st: LinkageState) -> int {
    let u = trace_old_dir(st);
    let v = trace_new_dir(new_crank, new_rocker);
    let dot = u.0 * v.0 + u.1 * v.1;
    let crs = u.0 * v.1 - u.1 * v.0;
    let dx = st.tracer_point.x as int - st.crank_joint.x as int;
    let dy = st.tracer_point.y as int - st.crank_joint.y as int;
    dy * dot + dx * crs
}

/// The point the tracer computes: the new crank joint plus the rotated
/// offset.
pub open spec fn trace_point_spec(new_crank: Point, new_rocker: Point, st: LinkageState) -> (
    int,
    int,
) {
    let m = trace_den(new_crank, new_rocker, st);
    (
        new_crank.x as int + div_trunc(trace_num_x(new_crank, new_rocker, st), m),
        new_crank.y as int + div_trunc(trace_num_y(new_crank, new_rocker, st), m),
    )
}

/// Tracing succeeds exactly when the traced point lies in the engine's
/// working range.
pub open spec fn trace_ok_spec(new_crank: Point, new_rocker: Point, st: LinkageState) -> bool {
    &&& in_range(trace_point_spec(new_crank, new_rocker, st).0)
    &&& in_range(trace_point_spec(new_crank, new_rocker, st).1)
}

/// New position of the tracer point when the coupler moves from its
/// orientation in `st` to the orientation given by `new_crank` and
/// `new_rocker`. `None` only when the traced point would leave the engine's
/// working range.
pub fn trace_point(new_crank: &Point, new_rocker: &Point, st: &LinkageState) -> (r: Option<Point>)
    requires
        pt_in_range(*new_crank),
        pt_in_range(*new_rocker),
        state_in_range(*st),
    ensures
        r is Some <==> trace_ok_spec(*new_crank, *new_rocker, *st),
        r is Some ==> r->0.x as int == trace_point_spec(*new_crank, *new_rocker, *st).0,
        r is Some ==> r->0.y as int == trace_point_spec(*new_crank, *new_rocker, *st).1,
        r is Some ==> pt_in_range(r->0),
{
    let ux0 = st.rocker_joint.x - st.crank_joint.x;
    let uy0 = st.rocker_joint.y - st.crank_joint.y;
    let (ux, uy): (i64, i64) = if ux0 == 0 && uy0 == 0 {
        (1, 0)
    } else {
        (ux0, uy0)
    };
    let vx0 = new_rocker.x - new_crank.x;
    let vy0 = new_rocker.y - new_crank.y;
    let (vx, vy): (i64, i64) = if vx0 == 0 && vy0 == 0 {
        (1, 0)
    } else {
        (vx0, vy0)
    };

    let uxl = ux as i128;
    let uyl = uy as i128;
    let vxl = vx as i128;
    let vyl = vy as i128;
    proof {
        lemma_mul_bound(uxl as int, uxl as int, 536870912, 536870912);
        lemma_mul_bound(uyl as int, uyl as int, 536870912, 536870912);
        lemma_mul_bound(vxl as int, vxl as int, 536870912, 536870912);
        lemma_mul_bound(vyl as int, vyl as int, 536870912, 536870912);
        lemma_square_nonneg(uxl as int);
        lemma_square_nonneg(uyl as int);
        lemma_square_nonneg(vxl as int);
        lemma_square_nonneg(vyl as int);
    }
    let uu = uxl * uxl + uyl * uyl;
    let vv = vxl * vxl + vyl * vyl;
    proof {
        assert(uu >= 1 && vv >= 1) by (nonlinear_arith)
            requires
                uu == uxl * uxl + uyl * uyl,
                vv == vxl * vxl + vyl * vyl,
                !(uxl == 0 && uyl == 0),
                !(vxl == 0 && vyl == 0),
        ;
        lemma_mul_bound(uu as int, vv as int, 576460752303423488, 576460752303423488);
        assert(uu * vv >= 1) by (nonlinear_arith)
            requires
                uu >= 1,
                vv >= 1,
        ;
    }
    let prod = uu * vv;
    let m = isqrt(prod as u128);
    proof {
        assert(m >= 1);
        assert(m as int <= 576460752303423488) by (nonlinear_arith)
            requires
                (m as int) * (m as int) <= prod as int,
                (prod as int) <= 332306998946228968225951765070086144,
                (m as int) >= 0,
        ;
    }
    let mi = m as i128;

    proof {
        lemma_mul_bound(uxl as int, vxl as int, 536870912, 536870912);
        lemma_mul_bound(uyl as int, vyl as int, 536870912, 536870912);
        lemma_mul_bound(uxl as int, vyl as int, 536870912, 536870912);
        lemma_mul_bound(uyl as int, vxl as int, 536870912, 536870912);
    }
    let dot = uxl * vxl + uyl * vyl;
    let crs = uxl * vyl - uyl * vxl;
    let dx = st.tracer_point.x as i128 - st.crank_joint.x as i128;
    let dy = st.tracer_point.y as i128 - st.crank_joint.y as i128;
    proof {
        lemma_mul_bound(dx as int, dot as int, 536870912, 576460752303423488);
        lemma_mul_bound(dy as int, crs as int, 536870912, 576460752303423488);
        lemma_mul_bound(dy as int, dot as int, 536870912, 576460752303423488);
        lemma_mul_bound(dx as int, crs as int, 536870912, 576460752303423488);
    }
    let num_x = dx * dot - dy * crs;
    let num_y = dy * dot + dx * crs;
    let qx = div_trunc_i128(num_x, mi);
    let qy = div_trunc_i128(num_y, mi);
    let rx = new_crank.x as i128 + qx;
    let ry = new_crank.y as i128 + qy;

    let bound = COORD_BOUND as i128;
    if rx < -bound || rx > bound || ry < -bound || ry > bound {
        return None;
    }
    Some(Point { x: rx as i64, y: ry as i64 })
}

/// Rigidity while the mechanism stands still: when the coupler has not
/// moved — the new crank and rocker joints are the old ones — the traced
/// point is exactly the old tracer point. Re-deriving the offset on every
/// call loses nothing between calls that leave the coupler in place.
pub proof fn lemma_still_coupler_keeps_tracer(st: LinkageState)
    ensures
        trace_point_spec(st.crank_joint, st.rocker_joint, st).0 == st.tracer_point.x as int,
        trace_point_spec(st.crank_joint, st.rocker_joint, st).1 == st.tracer_point.y as int,
{
    let u = trace_old_dir(st);
    let uu = u.0 * u.0 + u.1 * u.1;
    assert(trace_new_dir(st.crank_joint, st.rocker_joint) == u);
    assert(!(u.0 == 0 && u.1 == 0));
    assert(uu >= 1) by (nonlinear_arith)
        requires
            !(u.0 == 0 && u.1 == 0),
            uu == u.0 * u.0 + u.1 * u.1,
    ;
    assert(u.0 * u.1 - u.1 * u.0 == 0) by (nonlinear_arith);
    lemma_sqrt_floor_of_square(uu);
    let dx = st.tracer_point.x as int - st.crank_joint.x as int;
    let dy = st.tracer_point.y as int - st.crank_joint.y as int;
    assert(dx * uu - dy * 0 == dx * uu);
    assert(dy * uu + dx * 0 == dy * uu);
    lemma_div_trunc_multiple(dx, uu);
    lemma_div_trunc_multiple(dy, uu);
}

} // verus!
