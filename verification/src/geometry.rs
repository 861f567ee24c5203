//! Geometry primitives: points, squared distance, floor square root,
//! truncating division, distance and direction.

use vstd::prelude::*;

verus! {

/// Largest coordinate magnitude the engine accepts. Keeping every point in
/// `[-COORD_BOUND, COORD_BOUND]` guarantees that every intermediate product
/// of the solver and tracer fits in an `i128`.
pub const COORD_BOUND: i64 = 268435456;

/// A point of the plane, in screen coordinates (y grows downward).
/// The unit is whatever fixed-point scale the caller picked.
#[derive(Clone, Copy, Debug, PartialEq, Eq, Structural)]
pub struct Point {
    pub x: i64,
    pub y: i64,
}

/// A single coordinate is within the engine's working range.
pub open spec fn in_range(v: int) -> bool {
    -(COORD_BOUND as int) <= v <= COORD_BOUND as int
}

/// Both coordinates of a point are within the working range.
pub open spec fn pt_in_range(p: Point) -> bool {
    in_range(p.x as int) && in_range(p.y as int)
}

/// The point with the given integer coordinates (which are meant to be in
/// range, so that the conversion to machine integers loses nothing).
pub open spec fn pt_from(x: int, y: int) -> Point {
    Point { x: x as i64, y: y as i64 }
}

/// Squared Euclidean distance between two points, exactly.
pub open spec fn dist_sq_spec(a: Point, b: Point) -> int {
    let dx = b.x as int - a.x as int;
    let dy = b.y as int - a.y as int;
    dx * dx + dy * dy
}

/// Floor of the square root of `n` (0 for negative `n`).
pub open spec fn sqrt_floor(n: int) -> int
    decreases n,
{
    if n <= 0 {
        0
    } else {
        let r = sqrt_floor(n - 1);
        if (r + 1) * (r + 1) <= n {
            r + 1
        } else {
            r
        }
    }
}

/// Quotient of `a` by `b` rounded toward zero, for a positive divisor.
pub open spec fn div_trunc(a: int, b: int) -> int
    recommends
        b > 0,
{
    if a >= 0 {
        a / b
    } else {
        -((-a) / b)
    }
}

/// A product of two values bounded in magnitude is bounded by the product of
/// the bounds.
pub proof fn lemma_mul_bound(x: int, y: int, mx: int, my: int)
    by (nonlinear_arith)
    requires
        0 <= mx,
        0 <= my,
        -mx <= x <= mx,
        -my <= y <= my,
    ensures
        -(mx * my) <= x * y <= mx * my,
{
}

/// A square is never negative.
pub proof fn lemma_square_nonneg(x: int)
    by (nonlinear_arith)
    ensures
        x * x >= 0,
{
}

/// `sqrt_floor(n)` really is the floor of the square root: it is nonnegative,
/// its square is at most `n`, and the next square is beyond `n`.
pub proof fn lemma_sqrt_floor_bounds(n: int)
    requires
        n >= 0,
    ensures
        0 <= sqrt_floor(n),
        sqrt_floor(n) * sqrt_floor(n) <= n,
        n < (sqrt_floor(n) + 1) * (sqrt_floor(n) + 1),
    decreases n,
{
    if n == 0 {
    } else {
        lemma_sqrt_floor_bounds(n - 1);
        let r = sqrt_floor(n - 1);
        if (r + 1) * (r + 1) <= n {
            assert(n - 1 < (r + 1) * (r + 1));
            assert(n == (r + 1) * (r + 1));
            assert((r + 2) * (r + 2) > (r + 1) * (r + 1)) by (nonlinear_arith)
                requires
                    r >= 0,
            ;
        } else {
        }
    }
}

/// Only one nonnegative integer has its square at most `n` and the next
/// square beyond `n`, so any such witness equals `sqrt_floor(n)`.
pub proof fn lemma_sqrt_floor_unique(n: int, r: int)
    requires
        n >= 0,
        r >= 0,
        r * r <= n,
        n < (r + 1) * (r + 1),
    ensures
        r == sqrt_floor(n),
{
    lemma_sqrt_floor_bounds(n);
    let s = sqrt_floor(n);
    assert(r < s ==> (r + 1) * (r + 1) <= s * s) by (nonlinear_arith)
        requires
            r >= 0,
            s >= 0,
    ;
    assert(s < r ==> (s + 1) * (s + 1) <= r * r) by (nonlinear_arith)
        requires
            r >= 0,
            s >= 0,
    ;
}

/// The floor square root of a perfect square is its root.
pub proof fn lemma_sqrt_floor_of_square(x: int)
    requires
        x >= 0,
    ensures
        sqrt_floor(x * x) == x,
{
    lemma_square_nonneg(x);
    assert(x * x < (x + 1) * (x + 1)) by (nonlinear_arith)
        requires
            x >= 0,
    ;
    lemma_sqrt_floor_unique(x * x, x);
}

/// Dividing an exact multiple by the (positive) factor gives the other
/// factor back, also under truncating division.
pub proof fn lemma_div_trunc_multiple(a: int, b: int)
    requires
        b > 0,
    ensures
        div_trunc(a * b, b) == a,
{
    if a >= 0 {
        assert(a * b >= 0 && a * b == b * a) by (nonlinear_arith)
            requires
                a >= 0,
                b > 0,
        ;
        vstd::arithmetic::div_mod::lemma_div_multiples_vanish(a, b);
    } else {
        assert(a * b < 0 && -(a * b) == b * (-a)) by (nonlinear_arith)
            requires
                a < 0,
                b > 0,
        ;
        vstd::arithmetic::div_mod::lemma_div_multiples_vanish(-a, b);
    }
}

/// Truncating division is off by less than the divisor: scaling the
/// quotient back up lands within one divisor of the dividend.
pub proof fn lemma_div_trunc_close(a: int, b: int)
    requires
        b > 0,
    ensures
        -b < div_trunc(a, b) * b - a < b,
{
    if a >= 0 {
        vstd::arithmetic::div_mod::lemma_fundamental_div_mod(a, b);
        vstd::arithmetic::div_mod::lemma_mod_bound(a, b);
        assert((a / b) * b == b * (a / b)) by (nonlinear_arith);
    } else {
        vstd::arithmetic::div_mod::lemma_fundamental_div_mod(-a, b);
        vstd::arithmetic::div_mod::lemma_mod_bound(-a, b);
        assert((-((-a) / b)) * b == -(b * ((-a) / b))) by (nonlinear_arith);
    }
}

/// Floor square root of a 128-bit integer, by binary search.
pub fn isqrt(n: u128) -> (r: u128)
    requires
        (n as int) < 5316911983139663491615228241121378304,
    ensures
        r as int == sqrt_floor(n as int),
        (r as int) * (r as int) <= n as int,
        (n as int) < (r as int + 1) * (r as int + 1),
{
    let mut lo: u128 = 0;
    let mut hi: u128 = 2305843009213693952;
    proof {
        assert((hi as int + 1) * (hi as int + 1) > n as int);
    }
    while lo < hi
        invariant
            lo <= hi,
            hi <= 2305843009213693952,
            (lo as int) * (lo as int) <= n as int,
            (n as int) < (hi as int + 1) * (hi as int + 1),
        decreases hi - lo,
    {
        let mid: u128 = lo + (hi - lo + 1) / 2;
        proof {
            assert(mid * mid <= 5316911983139663491615228241121378304) by (nonlinear_arith)
                requires
                    mid <= 2305843009213693952,
            ;
        }
        if mid * mid <= n {
            lo = mid;
        } else {
            hi = mid - 1;
        }
    }
    proof {
        lemma_sqrt_floor_unique(n as int, lo as int);
    }
    lo
}

/// Quotient rounded toward zero, for a positive divisor.
pub fn div_trunc_i128(a: i128, b: i128) -> (q: i128)
    requires
        b > 0,
        a > i128::MIN,
    ensures
        q as int == div_trunc(a as int, b as int),
        a >= 0 ==> 0 <= q <= a,
        a < 0 ==> a <= q <= 0,
{
    if a >= 0 {
        let au = a as u128;
        let bu = b as u128;
        let qu = au / bu;
        proof {
            assert(qu <= au) by (nonlinear_arith)
                requires
                    bu >= 1,
                    qu == au / bu,
            ;
        }
        qu as i128
    } else {
        let m = -a;
        let mu = m as u128;
        let bu = b as u128;
        let qu = mu / bu;
        proof {
            assert(qu <= mu) by (nonlinear_arith)
                requires
                    bu >= 1,
                    qu == mu / bu,
            ;
        }
        -(qu as i128)
    }
}

/// Squared distance between two in-range points, exactly.
pub fn dist_sq(a: &Point, b: &Point) -> (d: i64)
    requires
        pt_in_range(*a),
        pt_in_range(*b),
    ensures
        d as int == dist_sq_spec(*a, *b),
        0 <= d <= 576460752303423488,
{
    let dx = b.x - a.x;
    let dy = b.y - a.y;
    proof {
        lemma_mul_bound(dx as int, dx as int, 536870912, 536870912);
        lemma_mul_bound(dy as int, dy as int, 536870912, 536870912);
        lemma_square_nonneg(dx as int);
        lemma_square_nonneg(dy as int);
    }
    dx * dx + dy * dy
}

/// Euclidean distance between two in-range points, rounded down to the unit
/// grid. Always nonnegative.
pub fn distance(a: &Point, b: &Point) -> (d: i64)
    requires
        pt_in_range(*a),
        pt_in_range(*b),
    ensures
        d as int == sqrt_floor(dist_sq_spec(*a, *b)),
        0 <= d,
{
    let sq = dist_sq(a, b);
    let r = isqrt(sq as u128);
    proof {
        assert((r as int) * (r as int) <= 576460752303423488);
        assert(r as int <= 768614336404564650) by (nonlinear_arith)
            requires
                (r as int) * (r as int) <= 576460752303423488,
                (r as int) >= 0,
        ;
    }
    r as i64
}

/// The direction from `p2` to `p1`, as a vector in mathematical (y-up)
/// coordinates. This is the engine's stand-in for a signed angle: where a
/// real-valued engine would return `atan2(-(p1.y - p2.y), p1.x - p2.x)`, this
/// one returns the vector that angle is the heading of. The y component is
/// negated because points live in screen coordinates (y grows downward).
pub fn direction(p1: &Point, p2: &Point) -> (d: Point)
    requires
        pt_in_range(*p1),
        pt_in_range(*p2),
    ensures
        d.x as int == p1.x as int - p2.x as int,
        d.y as int == -(p1.y as int - p2.y as int),
{
    Point { x: p1.x - p2.x, y: -(p1.y - p2.y) }
}

} // verus!
