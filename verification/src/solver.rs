//! Position solver: given a new position of the crank's moving joint, find
//! the rocker's moving joint as the intersection of two circles.
//!
//! The first circle has the coupler's length as radius and the driving point
//! as centre; the second has the rocker's length as radius and the rocker's
//! ground pivot as centre. Both radii are the *current* configuration's
//! lengths. Of the two intersection points the solver always takes the same
//! branch, so successive calls never flip the assembly mode.
//!
//! With `d2` the squared distance from driving point to rocker ground,
//! `q1`/`q2` the squared coupler/rocker lengths, `a = q1 - q2` and
//! `disc = 2*(q1 + q2)*d2 - a*a - d2*d2`, the intersection is
//!
//! ```text
//! x = (d2*(x1 + x2) + a*(x2 - x1) + sqrt(disc)*(y2 - y1)) / (2*d2)
//! y = (d2*(y1 + y2) + a*(y2 - y1) + sqrt(disc)*(x1 - x2)) / (2*d2)
//! ```
//!
//! where `(x1, y1)` is the driving point and `(x2, y2)` the rocker ground.
//! The engine computes exactly this with a floor square root and truncating
//! division. A negative `disc` means the circles do not intersect: the
//! configuration is unreachable and the solver reports it instead of
//! producing meaningless coordinates.

use vstd::prelude::*;
use crate::geometry::Point;
use crate::geometry::COORD_BOUND;
use crate::geometry::dist_sq;
use crate::geometry::dist_sq_spec;
use crate::geometry::div_trunc;
use crate::geometry::div_trunc_i128;
use crate::geometry::lemma_div_trunc_close;
use crate::geometry::in_range;
use crate::geometry::isqrt;
use crate::geometry::lemma_mul_bound;
use crate::geometry::lemma_square_nonneg;
use crate::geometry::pt_in_range;
use crate::geometry::sqrt_floor;
use crate::linkage::LinkageState;
use crate::linkage::UnreachableConfiguration;
use crate::linkage::state_in_range;

verus! {

/// Squared length of the coupler link in the current configuration.
pub open spec fn coupler_sq(st: LinkageState) -> int {
    dist_sq_spec(st.rocker_joint, st.crank_joint)
}

/// Squared length of the rocker link in the current configuration.
pub open spec fn rocker_sq(st: LinkageState) -> int {
    dist_sq_spec(st.rocker_joint, st.rocker_ground)
}

/// Squared distance from the driving point to the rocker's ground pivot.
pub open spec fn solve_d2(p1: Point, st: LinkageState) -> int {
    dist_sq_spec(p1, st.rocker_ground)
}

/// Discriminant of the circle intersection; negative exactly when the two
/// constraint circles do not meet.
pub open spec fn solve_disc(p1: Point, st: LinkageState) -> int {
    let d2 = solve_d2(p1, st);
    let q1 = coupler_sq(st);
    let q2 = rocker_sq(st);
    let a = q1 - q2;
    2 * (q1 + q2) * d2 - a * a - d2 * d2
}

/// Numerator of the solution's x coordinate, for a given square root `s` of
/// the discriminant. The denominator is `2 * solve_d2(p1, st)`.
pub open spec fn solve_num_x_with(p1: Point, st: LinkageState, s: int) -> int {
    let d2 = solve_d2(p1, st);
    let a = coupler_sq(st) - rocker_sq(st);
    let x1 = p1.x as int;
    let x2 = st.rocker_ground.x as int;
    let y1 = p1.y as int;
    let y2 = st.rocker_ground.y as int;
    d2 * (x1 + x2) + a * (x2 - x1) + s * (y2 - y1)
}

/// Numerator of the solution's y coordinate, for a given square root `s` of
/// the discriminant.
pub open spec fn solve_num_y_with(p1: Point, st: LinkageState, s: int) -> int {
    let d2 = solve_d2(p1, st);
    let a = coupler_sq(st) - rocker_sq(st);
    let x1 = p1.x as int;
    let x2 = st.rocker_ground.x as int;
    let y1 = p1.y as int;
    let y2 = st.rocker_ground.y as int;
    d2 * (y1 + y2) + a * (y2 - y1) + s * (x1 - x2)
}

/// The point the solver computes: numerators over `2 * d2`, with the floor
/// square root of the discriminant and truncating division.
pub open spec fn solve_point_spec(p1: Point, st: LinkageState) -> (int, int) {
    let d2 = solve_d2(p1, st);
    let s = sqrt_floor(solve_disc(p1, st));
    (
        div_trunc(solve_num_x_with(p1, st, s), 2 * d2),
        div_trunc(solve_num_y_with(p1, st, s), 2 * d2),
    )
}

/// The solver succeeds exactly when the driving point is distinct from the
/// rocker ground, the circles intersect, and the intersection lies in the
/// engine's working range.
pub open spec fn solve_ok_spec(p1: Point, st: LinkageState) -> bool {
    &&& solve_d2(p1, st) != 0
    &&& solve_disc(p1, st) >= 0
    &&& in_range(solve_point_spec(p1, st).0)
    &&& in_range(solve_point_spec(p1, st).1)
}

/// New position of the rocker's moving joint for a driving point
/// `driving_point` of the crank's moving joint, keeping the current coupler
/// and rocker lengths of `st`. Reports `UnreachableConfiguration` instead of
/// returning a meaningless point when the constraint circles do not meet.
pub fn solve_dependent(driving_point: &Point, st: &LinkageState) -> (r: Result<
    Point,
    UnreachableConfiguration,
>)
    requires
        pt_in_range(*driving_point),
        state_in_range(*st),
    ensures
        r is Ok <==> solve_ok_spec(*driving_point, *st),
        r is Ok ==> r->Ok_0.x as int == solve_point_spec(*driving_point, *st).0,
        r is Ok ==> r->Ok_0.y as int == solve_point_spec(*driving_point, *st).1,
        r is Ok ==> pt_in_range(r->Ok_0),
{
    let x1 = driving_point.x as i128;
    let y1 = driving_point.y as i128;
    let x2 = st.rocker_ground.x as i128;
    let y2 = st.rocker_ground.y as i128;
    let q1 = dist_sq(&st.rocker_joint, &st.crank_joint) as i128;
    let q2 = dist_sq(&st.rocker_joint, &st.rocker_ground) as i128;

    let dx = x2 - x1;
    let dy = y2 - y1;
    proof {
        lemma_mul_bound(dx as int, dx as int, 536870912, 536870912);
        lemma_mul_bound(dy as int, dy as int, 536870912, 536870912);
        lemma_square_nonneg(dx as int);
        lemma_square_nonneg(dy as int);
    }
    let d2 = dx * dx + dy * dy;
    if d2 == 0 {
        return Err(UnreachableConfiguration);
    }

    let sum_q = q1 + q2;
    let a = q1 - q2;
    proof {
        lemma_mul_bound(2 * sum_q as int, d2 as int, 2305843009213693952, 576460752303423488);
        lemma_mul_bound(a as int, a as int, 576460752303423488, 576460752303423488);
        lemma_mul_bound(d2 as int, d2 as int, 576460752303423488, 576460752303423488);
        lemma_square_nonneg(a as int);
    }
    let t1 = 2 * sum_q * d2;
    let a2 = a * a;
    let d4 = d2 * d2;
    let disc = t1 - a2 - d4;
    if disc < 0 {
        return Err(UnreachableConfiguration);
    }

    let s = isqrt(disc as u128);
    proof {
        assert(s as int <= 2305843009213693952) by (nonlinear_arith)
            requires
                (s as int) * (s as int) <= disc as int,
                (disc as int) < 5316911983139663491615228241121378304,
                (s as int) >= 0,
        ;
    }
    let s_i = s as i128;
    proof {
        lemma_mul_bound(d2 as int, (x1 + x2) as int, 576460752303423488, 536870912);
        lemma_mul_bound(d2 as int, (y1 + y2) as int, 576460752303423488, 536870912);
        lemma_mul_bound(a as int, dx as int, 576460752303423488, 536870912);
        lemma_mul_bound(a as int, dy as int, 576460752303423488, 536870912);
        lemma_mul_bound(s_i as int, dx as int, 2305843009213693952, 536870912);
        lemma_mul_bound(s_i as int, dy as int, 2305843009213693952, 536870912);
        lemma_mul_bound(s_i as int, -(dx as int), 2305843009213693952, 536870912);
    }
    let num_x = d2 * (x1 + x2) + a * dx + s_i * dy;
    let num_y = d2 * (y1 + y2) + a * dy + s_i * (-dx);
    let den = 2 * d2;
    let rx = div_trunc_i128(num_x, den);
    let ry = div_trunc_i128(num_y, den);

    let bound = COORD_BOUND as i128;
    if rx < -bound || rx > bound || ry < -bound || ry > bound {
        return Err(UnreachableConfiguration);
    }
    Ok(Point { x: rx as i64, y: ry as i64 })
}

/// The intersection formula is exact: whenever `s` is an exact square root
/// of the discriminant, the point with coordinates
/// `(num_x / (2*d2), num_y / (2*d2))` — in exact rational arithmetic — lies
/// exactly on both constraint circles. Stated over the scaled numerators so
/// that no rounding enters: the solver's result is the truncation of this
/// exact point to the unit grid.
/// Rotation-style sums of squares multiply out:
/// `(u*x + v*y)^2 + (u*y - v*x)^2 == (u^2 + v^2) * (x^2 + y^2)`.
proof fn lemma_sum_of_squares_identity(u: int, v: int, x: int, y: int)
    ensures
        (u * x + v * y) * (u * x + v * y) + (u * y + v * (-x)) * (u * y + v * (-x)) == (u * u + v
            * v) * (x * x + y * y),
{
    let p = u * x;
    let q = v * y;
    let r = u * y;
    let t = v * (-x);
    let uu = u * u;
    let vv = v * v;
    let xx = x * x;
    let yy = y * y;
    assert((p + q) * (p + q) == p * p + 2 * (p * q) + q * q) by (nonlinear_arith);
    assert((r + t) * (r + t) == r * r + 2 * (r * t) + t * t) by (nonlinear_arith);
    assert(p * q + r * t == 0) by (nonlinear_arith)
        requires
            p == u * x,
            q == v * y,
            r == u * y,
            t == v * (-x),
    ;
    assert(p * p == uu * xx) by (nonlinear_arith)
        requires
            p == u * x,
            uu == u * u,
            xx == x * x,
    ;
    assert(q * q == vv * yy) by (nonlinear_arith)
        requires
            q == v * y,
            vv == v * v,
            yy == y * y,
    ;
    assert(r * r == uu * yy) by (nonlinear_arith)
        requires
            r == u * y,
            uu == u * u,
            yy == y * y,
    ;
    assert(t * t == vv * xx) by (nonlinear_arith)
        requires
            t == v * (-x),
            vv == v * v,
            xx == x * x,
    ;
    assert((uu + vv) * (xx + yy) == uu * xx + uu * yy + vv * xx + vv * yy) by (nonlinear_arith);
}

pub proof fn lemma_exact_solution_on_circles(p1: Point, st: LinkageState, s: int)
    requires
        solve_d2(p1, st) != 0,
        s * s == solve_disc(p1, st),
    ensures
        ({
            let d2 = solve_d2(p1, st);
            let nx = solve_num_x_with(p1, st, s);
            let ny = solve_num_y_with(p1, st, s);
            let cx = nx - 2 * d2 * (p1.x as int);
            let cy = ny - 2 * d2 * (p1.y as int);
            cx * cx + cy * cy == 4 * d2 * d2 * coupler_sq(st)
        }),
        ({
            let d2 = solve_d2(p1, st);
            let nx = solve_num_x_with(p1, st, s);
            let ny = solve_num_y_with(p1, st, s);
            let gx = nx - 2 * d2 * (st.rocker_ground.x as int);
            let gy = ny - 2 * d2 * (st.rocker_ground.y as int);
            gx * gx + gy * gy == 4 * d2 * d2 * rocker_sq(st)
        }),
{
    let d2 = solve_d2(p1, st);
    let q1 = coupler_sq(st);
    let q2 = rocker_sq(st);
    let a = q1 - q2;
    let k = solve_disc(p1, st);
    let x1 = p1.x as int;
    let y1 = p1.y as int;
    let x2 = st.rocker_ground.x as int;
    let y2 = st.rocker_ground.y as int;
    let dx = x2 - x1;
    let dy = y2 - y1;
    let nx = solve_num_x_with(p1, st, s);
    let ny = solve_num_y_with(p1, st, s);

    assert(d2 == dx * dx + dy * dy);
    assert(nx == d2 * (x1 + x2) + a * dx + s * dy);
    assert(ny == d2 * (y1 + y2) + a * dy + s * (-dx));

    // Distance to the driving point (x1, y1).
    assert(nx - 2 * d2 * x1 == (d2 + a) * dx + s * dy) by (nonlinear_arith)
        requires
            nx == d2 * (x1 + x2) + a * dx + s * dy,
            dx == x2 - x1,
    ;
    assert(ny - 2 * d2 * y1 == (d2 + a) * dy + s * (-dx)) by (nonlinear_arith)
        requires
            ny == d2 * (y1 + y2) + a * dy + s * (-dx),
            dy == y2 - y1,
    ;
    let e = d2 + a;
    lemma_sum_of_squares_identity(e, s, dx, dy);
    assert(e * e + k == 4 * d2 * q1) by (nonlinear_arith)
        requires
            e == d2 + a,
            k == 2 * (q1 + q2) * d2 - a * a - d2 * d2,
            a == q1 - q2,
    ;
    assert((4 * d2 * q1) * d2 == 4 * d2 * d2 * q1) by (nonlinear_arith);

    // Distance to the rocker ground (x2, y2).
    assert(nx - 2 * d2 * x2 == (a - d2) * dx + s * dy) by (nonlinear_arith)
        requires
            nx == d2 * (x1 + x2) + a * dx + s * dy,
            dx == x2 - x1,
    ;
    assert(ny - 2 * d2 * y2 == (a - d2) * dy + s * (-dx)) by (nonlinear_arith)
        requires
            ny == d2 * (y1 + y2) + a * dy + s * (-dx),
            dy == y2 - y1,
    ;
    let f = a - d2;
    lemma_sum_of_squares_identity(f, s, dx, dy);
    assert(f * f + k == 4 * d2 * q2) by (nonlinear_arith)
        requires
            f == a - d2,
            k == 2 * (q1 + q2) * d2 - a * a - d2 * d2,
            a == q1 - q2,
    ;
    assert((4 * d2 * q2) * d2 == 4 * d2 * d2 * q2) by (nonlinear_arith);
}

/// When the discriminant happens to be a perfect square, the exactness law
/// applies to the solver's own numerators, whose square root term is
/// `sqrt_floor` of the discriminant.
pub proof fn lemma_solver_numerators_on_circles(p1: Point, st: LinkageState)
    requires
        solve_d2(p1, st) != 0,
        solve_disc(p1, st) >= 0,
        sqrt_floor(solve_disc(p1, st)) * sqrt_floor(solve_disc(p1, st)) == solve_disc(p1, st),
    ensures
        ({
            let d2 = solve_d2(p1, st);
            let s = sqrt_floor(solve_disc(p1, st));
            let cx = solve_num_x_with(p1, st, s) - 2 * d2 * (p1.x as int);
            let cy = solve_num_y_with(p1, st, s) - 2 * d2 * (p1.y as int);
            cx * cx + cy * cy == 4 * d2 * d2 * coupler_sq(st)
        }),
        ({
            let d2 = solve_d2(p1, st);
            let s = sqrt_floor(solve_disc(p1, st));
            let gx = solve_num_x_with(p1, st, s) - 2 * d2 * (st.rocker_ground.x as int);
            let gy = solve_num_y_with(p1, st, s) - 2 * d2 * (st.rocker_ground.y as int);
            gx * gx + gy * gy == 4 * d2 * d2 * rocker_sq(st)
        }),
{
    lemma_exact_solution_on_circles(p1, st, sqrt_floor(solve_disc(p1, st)));
}

/// The solver's rounding loses less than one unit: scaled up by the
/// denominator `2 * d2`, the returned coordinates land within one
/// denominator of the exact numerators. Together with the exactness law
/// this bounds the result's distance from the true circle intersection by
/// one grid unit per coordinate.
pub proof fn lemma_solver_result_near_exact(p1: Point, st: LinkageState)
    requires
        solve_d2(p1, st) != 0,
    ensures
        ({
            let d2 = solve_d2(p1, st);
            let s = sqrt_floor(solve_disc(p1, st));
            let r = solve_point_spec(p1, st);
            &&& -(2 * d2) < r.0 * (2 * d2) - solve_num_x_with(p1, st, s) < 2 * d2
            &&& -(2 * d2) < r.1 * (2 * d2) - solve_num_y_with(p1, st, s) < 2 * d2
        }),
{
    let d2 = solve_d2(p1, st);
    lemma_square_nonneg(st.rocker_ground.x as int - p1.x as int);
    lemma_square_nonneg(st.rocker_ground.y as int - p1.y as int);
    assert(d2 > 0);
    let s = sqrt_floor(solve_disc(p1, st));
    lemma_div_trunc_close(solve_num_x_with(p1, st, s), 2 * d2);
    lemma_div_trunc_close(solve_num_y_with(p1, st, s), 2 * d2);
}

/// The solver is deterministic: its result is a function of the driving
/// point and the state alone, so identical inputs give identical outputs and
/// the chosen branch of the circle intersection never flips between calls.
pub proof fn lemma_solve_dependent_deterministic(
    pa: Point,
    sta: LinkageState,
    pb: Point,
    stb: LinkageState,
)
    requires
        pa == pb,
        sta == stb,
    ensures
        solve_ok_spec(pa, sta) == solve_ok_spec(pb, stb),
        solve_point_spec(pa, sta) == solve_point_spec(pb, stb),
{
}

/// When the coupler and rocker are short relative to the distance between
/// the driving point and the rocker ground — twice the sum of their squared
/// lengths is still below that squared distance — no point can satisfy both
/// constraints: the solver reports the configuration unreachable.
pub proof fn lemma_short_links_unreachable(p1: Point, st: LinkageState)
    requires
        2 * (coupler_sq(st) + rocker_sq(st)) < solve_d2(p1, st),
    ensures
        !solve_ok_spec(p1, st),
        solve_disc(p1, st) < 0,
{
    let d2 = solve_d2(p1, st);
    let q1 = coupler_sq(st);
    let q2 = rocker_sq(st);
    let a = q1 - q2;
    lemma_square_nonneg(st.crank_joint.x as int - st.rocker_joint.x as int);
    lemma_square_nonneg(st.crank_joint.y as int - st.rocker_joint.y as int);
    lemma_square_nonneg(st.rocker_ground.x as int - st.rocker_joint.x as int);
    lemma_square_nonneg(st.rocker_ground.y as int - st.rocker_joint.y as int);
    assert(q1 >= 0);
    assert(q2 >= 0);
    assert(d2 > 0);
    assert(2 * (q1 + q2) * d2 < d2 * d2) by (nonlinear_arith)
        requires
            2 * (q1 + q2) < d2,
            d2 > 0,
            q1 + q2 >= 0,
    ;
    lemma_square_nonneg(a);
}

} // verus!
