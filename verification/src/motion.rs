//! Motion: advancing the crank by a rotation, one animation step, and the
//! coupler curve sampled over a full revolution.
//!
//! A revolution is driven by rotating the crank vector (from the crank's
//! ground pivot to its moving joint) by a fixed-point [`Rotation`]. Rotating
//! the vector keeps the crank length without ever computing an angle, which
//! is exactly what advancing the crank angle by the rotation's arc does.

use vstd::prelude::*;
use crate::geometry::Point;
use crate::geometry::COORD_BOUND;
use crate::geometry::div_trunc;
use crate::geometry::div_trunc_i128;
use crate::geometry::in_range;
use crate::geometry::lemma_mul_bound;
use crate::geometry::pt_from;
use crate::linkage::LinkageState;
use crate::linkage::ROT_SCALE;
use crate::linkage::Rotation;
use crate::linkage::UnreachableConfiguration;
use crate::linkage::rot_in_range;
use crate::linkage::state_in_range;
use crate::solver::solve_dependent;
use crate::solver::solve_ok_spec;
use crate::solver::solve_point_spec;
use crate::tracer::trace_ok_spec;
use crate::tracer::trace_point;
use crate::tracer::trace_point_spec;

verus! {

/// Largest magnitude a crank-vector component may take while it is rotated.
/// Wider than the coordinate range, so that every vector between two
/// in-range points rotates freely; a component that would run beyond it is
/// held at the edge.
pub const VEC_BOUND: i64 = 1073741824;

/// A value held to the rotating vector's working range.
pub open spec fn clamp_vec(v: int) -> int {
    if v > VEC_BOUND as int {
        VEC_BOUND as int
    } else if v < -(VEC_BOUND as int) {
        -(VEC_BOUND as int)
    } else {
        v
    }
}

/// One turn of the vector `(wx, wy)` by `turn`, in screen coordinates: the
/// mathematical angle of the vector advances by the rotation's arc. The
/// fixed-point products are divided back down by [`ROT_SCALE`] with
/// truncation.
pub open spec fn rot_step_spec(wx: int, wy: int, turn: Rotation) -> (int, int) {
    (
        clamp_vec(div_trunc(wx * (turn.cos as int) + wy * (turn.sin as int), ROT_SCALE as int)),
        clamp_vec(div_trunc(wy * (turn.cos as int) - wx * (turn.sin as int), ROT_SCALE as int)),
    )
}

/// Turn the vector `(wx, wy)` by `turn`.
fn rot_step(wx: i64, wy: i64, turn: &Rotation) -> (w: (i64, i64))
    requires
        -VEC_BOUND <= wx <= VEC_BOUND,
        -VEC_BOUND <= wy <= VEC_BOUND,
        rot_in_range(*turn),
    ensures
        w.0 as int == rot_step_spec(wx as int, wy as int, *turn).0,
        w.1 as int == rot_step_spec(wx as int, wy as int, *turn).1,
        -VEC_BOUND <= w.0 <= VEC_BOUND,
        -VEC_BOUND <= w.1 <= VEC_BOUND,
{
    let wxl = wx as i128;
    let wyl = wy as i128;
    let c = turn.cos as i128;
    let s = turn.sin as i128;
    proof {
        lemma_mul_bound(wxl as int, c as int, 1073741824, 65536);
        lemma_mul_bound(wyl as int, s as int, 1073741824, 65536);
        lemma_mul_bound(wyl as int, c as int, 1073741824, 65536);
        lemma_mul_bound(wxl as int, s as int, 1073741824, 65536);
    }
    let nx = div_trunc_i128(wxl * c + wyl * s, ROT_SCALE as i128);
    let ny = div_trunc_i128(wyl * c - wxl * s, ROT_SCALE as i128);
    let bound = VEC_BOUND as i128;
    let rx: i64 = if nx > bound {
        VEC_BOUND
    } else if nx < -bound {
        -VEC_BOUND
    } else {
        nx as i64
    };
    let ry: i64 = if ny > bound {
        VEC_BOUND
    } else if ny < -bound {
        -VEC_BOUND
    } else {
        ny as i64
    };
    (rx, ry)
}

/// Where the crank's moving joint lands when the crank vector of `st` is
/// turned by `turn`.
pub open spec fn step_drive_spec(st: LinkageState, turn: Rotation) -> (int, int) {
    let w = rot_step_spec(
        st.crank_joint.x as int - st.crank_ground.x as int,
        st.crank_joint.y as int - st.crank_ground.y as int,
        turn,
    );
    (st.crank_ground.x as int + w.0, st.crank_ground.y as int + w.1)
}

/// The solver's result for a driving point, as a point.
pub open spec fn solved_pt(p1: Point, st: LinkageState) -> Point {
    let p = solve_point_spec(p1, st);
    pt_from(p.0, p.1)
}

/// A step succeeds exactly when the turned crank joint stays in range, the
/// position solver succeeds for it, and the traced point stays in range.
pub open spec fn step_ok_spec(st: LinkageState, turn: Rotation) -> bool {
    let d = step_drive_spec(st, turn);
    &&& in_range(d.0)
    &&& in_range(d.1)
    &&& solve_ok_spec(pt_from(d.0, d.1), st)
    &&& trace_ok_spec(pt_from(d.0, d.1), solved_pt(pt_from(d.0, d.1), st), st)
}

/// The state one successful step produces: new crank joint, the solved
/// rocker joint, the traced point; the ground pivots never move.
pub open spec fn step_state_spec(st: LinkageState, turn: Rotation) -> LinkageState {
    let d = step_drive_spec(st, turn);
    let p1 = pt_from(d.0, d.1);
    let sp = solve_point_spec(p1, st);
    let p3 = pt_from(sp.0, sp.1);
    let tp = trace_point_spec(p1, p3, st);
    let p4 = pt_from(tp.0, tp.1);
    LinkageState {
        rocker_joint: p3,
        crank_joint: p1,
        crank_ground: st.crank_ground,
        rocker_ground: st.rocker_ground,
        tracer_point: p4,
    }
}

/// Advance the animation by one tick: turn the crank by `turn`, solve the
/// rocker joint and carry the tracer along. When the turned configuration is
/// unreachable the state is left exactly as it was and the error says so.
pub fn step(st: &mut LinkageState, turn: &Rotation) -> (r: Result<(), UnreachableConfiguration>)
    requires
        state_in_range(*old(st)),
        rot_in_range(*turn),
    ensures
        r is Ok <==> step_ok_spec(*old(st), *turn),
        r is Ok ==> *final(st) == step_state_spec(*old(st), *turn),
        r is Err ==> *final(st) == *old(st),
        state_in_range(*final(st)),
{
    let cur: LinkageState = *st;
    let wx = cur.crank_joint.x - cur.crank_ground.x;
    let wy = cur.crank_joint.y - cur.crank_ground.y;
    let (nwx, nwy) = rot_step(wx, wy, turn);
    let px = cur.crank_ground.x as i128 + nwx as i128;
    let py = cur.crank_ground.y as i128 + nwy as i128;
    let bound = COORD_BOUND as i128;
    if px < -bound || px > bound || py < -bound || py > bound {
        return Err(UnreachableConfiguration);
    }
    let p1 = Point { x: px as i64, y: py as i64 };
    let p3 = match solve_dependent(&p1, &cur) {
        Ok(p) => p,
        Err(e) => {
            return Err(e);
        },
    };
    let p4 = match trace_point(&p1, &p3, &cur) {
        Some(p) => p,
        None => {
            return Err(UnreachableConfiguration);
        },
    };
    st.crank_joint = p1;
    st.rocker_joint = p3;
    st.tracer_point = p4;
    Ok(())
}

/// The crank joint's position for the sample whose crank vector is
/// `(wx, wy)`.
pub open spec fn sample_drive(st: LinkageState, wx: int, wy: int) -> (int, int) {
    (st.crank_ground.x as int + wx, st.crank_ground.y as int + wy)
}

/// A sample contributes a curve point exactly when its crank joint is in
/// range, the solver succeeds for it, and the traced point is in range.
pub open spec fn sample_ok(st: LinkageState, wx: int, wy: int) -> bool {
    let d = sample_drive(st, wx, wy);
    &&& in_range(d.0)
    &&& in_range(d.1)
    &&& solve_ok_spec(pt_from(d.0, d.1), st)
    &&& trace_ok_spec(pt_from(d.0, d.1), solved_pt(pt_from(d.0, d.1), st), st)
}

/// The curve point a sample contributes.
pub open spec fn sample_pt(st: LinkageState, wx: int, wy: int) -> Point {
    let d = sample_drive(st, wx, wy);
    let p1 = pt_from(d.0, d.1);
    let sp = solve_point_spec(p1, st);
    let tp = trace_point_spec(p1, pt_from(sp.0, sp.1), st);
    pt_from(tp.0, tp.1)
}

/// The points of `n` successive samples, the crank vector starting at
/// `(wx, wy)` and turning by `turn` between samples. An unreachable sample
/// is skipped, exactly as the spec of the curve asks.
pub open spec fn curve_samples(st: LinkageState, turn: Rotation, wx: int, wy: int, n: nat) -> Seq<
    Point,
>
    decreases n,
{
    if n == 0 {
        Seq::empty()
    } else {
        let w = rot_step_spec(wx, wy, turn);
        let rest = curve_samples(st, turn, w.0, w.1, (n - 1) as nat);
        if sample_ok(st, wx, wy) {
            seq![sample_pt(st, wx, wy)] + rest
        } else {
            rest
        }
    }
}

/// The whole coupler curve: `n` samples starting from the current crank
/// vector, closed by the current tracer point.
pub open spec fn curve_spec(st: LinkageState, turn: Rotation, n: nat) -> Seq<Point> {
    curve_samples(
        st,
        turn,
        st.crank_joint.x as int - st.crank_ground.x as int,
        st.crank_joint.y as int - st.crank_ground.y as int,
        n,
    ).push(st.tracer_point)
}

/// There are never more sample points than samples.
proof fn lemma_curve_samples_len(st: LinkageState, turn: Rotation, wx: int, wy: int, n: nat)
    ensures
        curve_samples(st, turn, wx, wy, n).len() <= n,
    decreases n,
{
    if n > 0 {
        let w = rot_step_spec(wx, wy, turn);
        lemma_curve_samples_len(st, turn, w.0, w.1, (n - 1) as nat);
    }
}

/// One full period of the coupler curve: `resolution` samples of the crank
/// angle, uniformly spaced when `turn` is the rotation by one
/// `resolution`-th of a revolution, starting at the crank's current
/// position, each sample solved and traced; unreachable samples are skipped;
/// the current tracer point closes the curve.
pub fn generate_coupler_curve(st: &LinkageState, resolution: usize, turn: &Rotation) -> (pts: Vec<
    Point,
>)
    requires
        state_in_range(*st),
        rot_in_range(*turn),
    ensures
        pts@ == curve_spec(*st, *turn, resolution as nat),
        1 <= pts@.len() <= resolution + 1,
        pts@.last() == st.tracer_point,
{
    let mut pts: Vec<Point> = Vec::new();
    let mut wx = st.crank_joint.x - st.crank_ground.x;
    let mut wy = st.crank_joint.y - st.crank_ground.y;
    let mut k: usize = 0;
    let ghost w0x = st.crank_joint.x as int - st.crank_ground.x as int;
    let ghost w0y = st.crank_joint.y as int - st.crank_ground.y as int;
    while k < resolution
        invariant
            state_in_range(*st),
            rot_in_range(*turn),
            k <= resolution,
            -VEC_BOUND <= wx <= VEC_BOUND,
            -VEC_BOUND <= wy <= VEC_BOUND,
            curve_samples(*st, *turn, w0x, w0y, resolution as nat) == pts@ + curve_samples(
                *st,
                *turn,
                wx as int,
                wy as int,
                (resolution - k) as nat,
            ),
        decreases resolution - k,
    {
        let ghost m = (resolution - k) as nat;
        let ghost w_next = rot_step_spec(wx as int, wy as int, *turn);
        let ghost tail = curve_samples(*st, *turn, w_next.0, w_next.1, (m - 1) as nat);
        let ghost pts_before = pts@;

        let px = st.crank_ground.x as i128 + wx as i128;
        let py = st.crank_ground.y as i128 + wy as i128;
        let bound = COORD_BOUND as i128;
        if -bound <= px && px <= bound && -bound <= py && py <= bound {
            let p1 = Point { x: px as i64, y: py as i64 };
            match solve_dependent(&p1, st) {
                Ok(p3) => {
                    match trace_point(&p1, &p3, st) {
                        Some(p4) => {
                            proof {
                                assert(sample_ok(*st, wx as int, wy as int));
                                assert(p4 == sample_pt(*st, wx as int, wy as int));
                            }
                            pts.push(p4);
                            proof {
                                assert(pts@ =~= pts_before + seq![
                                    sample_pt(*st, wx as int, wy as int),
                                ]);
                            }
                        },
                        None => {
                            proof {
                                assert(!sample_ok(*st, wx as int, wy as int));
                            }
                        },
                    }
                },
                Err(_) => {
                    proof {
                        assert(!sample_ok(*st, wx as int, wy as int));
                    }
                },
            }
        } else {
            proof {
                assert(!sample_ok(*st, wx as int, wy as int));
            }
        }
        proof {
            if sample_ok(*st, wx as int, wy as int) {
                assert(curve_samples(*st, *turn, wx as int, wy as int, m) == seq![
                    sample_pt(*st, wx as int, wy as int),
                ] + tail);
                assert(pts_before + curve_samples(*st, *turn, wx as int, wy as int, m) =~= pts@
                    + tail);
            } else {
                assert(curve_samples(*st, *turn, wx as int, wy as int, m) == tail);
            }
        }
        let (nwx, nwy) = rot_step(wx, wy, turn);
        wx = nwx;
        wy = nwy;
        k = k + 1;
    }
    proof {
        assert(curve_samples(*st, *turn, wx as int, wy as int, (resolution - k) as nat)
            =~= Seq::<Point>::empty());
        assert(pts@ + Seq::<Point>::empty() =~= pts@);
        lemma_curve_samples_len(*st, *turn, w0x, w0y, resolution as nat);
    }
    pts.push(st.tracer_point);
    pts
}

/// A step is the curve generator's per-sample body applied to the turned
/// crank vector: it succeeds exactly when that sample is reachable, and the
/// tracer it writes is that sample's curve point.
pub proof fn lemma_step_matches_curve_sample(st: LinkageState, turn: Rotation)
    ensures
        ({
            let w = rot_step_spec(
                st.crank_joint.x as int - st.crank_ground.x as int,
                st.crank_joint.y as int - st.crank_ground.y as int,
                turn,
            );
            &&& step_ok_spec(st, turn) == sample_ok(st, w.0, w.1)
            &&& step_state_spec(st, turn).tracer_point == sample_pt(st, w.0, w.1)
        }),
{
}

/// Every one of `n` samples starting from the crank vector `(wx, wy)` is
/// reachable and in range.
pub open spec fn samples_all_ok(st: LinkageState, turn: Rotation, wx: int, wy: int, n: nat) -> bool
    decreases n,
{
    n == 0 || (sample_ok(st, wx, wy) && {
        let w = rot_step_spec(wx, wy, turn);
        samples_all_ok(st, turn, w.0, w.1, (n - 1) as nat)
    })
}

/// When every sample is reachable, none is skipped.
proof fn lemma_samples_full_len(st: LinkageState, turn: Rotation, wx: int, wy: int, n: nat)
    requires
        samples_all_ok(st, turn, wx, wy, n),
    ensures
        curve_samples(st, turn, wx, wy, n).len() == n,
    decreases n,
{
    if n > 0 {
        let w = rot_step_spec(wx, wy, turn);
        lemma_samples_full_len(st, turn, w.0, w.1, (n - 1) as nat);
    }
}

/// For a fully rotatable mechanism — one where every one of the `n` samples
/// of the revolution is reachable — the curve has exactly `n + 1` points,
/// and the last one is the current tracer point that closes the loop.
pub proof fn lemma_curve_full_resolution(st: LinkageState, turn: Rotation, n: nat)
    requires
        samples_all_ok(
            st,
            turn,
            st.crank_joint.x as int - st.crank_ground.x as int,
            st.crank_joint.y as int - st.crank_ground.y as int,
            n,
        ),
    ensures
        curve_spec(st, turn, n).len() == n + 1,
        curve_spec(st, turn, n).last() == st.tracer_point,
{
    lemma_samples_full_len(
        st,
        turn,
        st.crank_joint.x as int - st.crank_ground.x as int,
        st.crank_joint.y as int - st.crank_ground.y as int,
        n,
    );
}

} // verus!
