//! The linkage's state, fixed-point rotations, and the engine's one error.

use vstd::prelude::*;
use crate::geometry::Point;
use crate::geometry::pt_in_range;

verus! {

/// Denominator of the fixed-point cosine/sine pairs in [`Rotation`].
pub const ROT_SCALE: i64 = 65536;

/// The five points of a four-bar linkage. The crank turns about
/// `crank_ground`, the rocker about `rocker_ground`; the coupler is the
/// segment from `rocker_joint` to `crank_joint`, and `tracer_point` rides
/// rigidly on it, drawing the coupler curve.
///
/// Link lengths are not stored: the crank, rocker and coupler lengths are
/// whatever the current joint positions imply, so a free-form edit of a
/// joint simply redefines them.
#[derive(Clone, Copy, Debug, PartialEq, Eq, Structural)]
pub struct LinkageState {
    pub rocker_joint: Point,
    pub crank_joint: Point,
    pub crank_ground: Point,
    pub rocker_ground: Point,
    pub tracer_point: Point,
}

/// All five points are within the engine's working range.
pub open spec fn state_in_range(st: LinkageState) -> bool {
    &&& pt_in_range(st.rocker_joint)
    &&& pt_in_range(st.crank_joint)
    &&& pt_in_range(st.crank_ground)
    &&& pt_in_range(st.rocker_ground)
    &&& pt_in_range(st.tracer_point)
}

/// A plane rotation, held as a fixed-point cosine/sine pair with denominator
/// [`ROT_SCALE`]: a turn by `a` radians is `cos: round(cos(a) * ROT_SCALE)`,
/// `sin: round(sin(a) * ROT_SCALE)`. The caller, who owns the real-valued
/// world, builds these; the engine never touches an angle in radians.
#[derive(Clone, Copy, Debug, PartialEq, Eq, Structural)]
pub struct Rotation {
    pub cos: i64,
    pub sin: i64,
}

/// Both components of a rotation are within the fixed-point scale.
pub open spec fn rot_in_range(r: Rotation) -> bool {
    &&& -(ROT_SCALE as int) <= r.cos as int <= ROT_SCALE as int
    &&& -(ROT_SCALE as int) <= r.sin as int <= ROT_SCALE as int
}

/// The solver's only error: the two constraint circles of the position
/// problem do not intersect (or degenerate so that no unique intersection
/// exists, or the intersection falls outside the engine's working range), so
/// the requested driving position is kinematically unreachable for the
/// current link lengths.
#[derive(Clone, Copy, Debug, PartialEq, Eq, Structural)]
pub struct UnreachableConfiguration;

} // verus!
