//! Position kinematics for a planar four-bar linkage.
//!
//! The engine works on integer coordinates: a caller that thinks in real
//! units picks a fixed-point scale (say 1000 units per pixel) and hands the
//! engine scaled values. All arithmetic is exact integer arithmetic, with a
//! floor square root and truncating division where the geometry calls for
//! roots and quotients, so every function's contract pins its result down
//! completely.

pub mod geometry;
pub mod linkage;
pub mod solver;
pub mod tracer;
pub mod motion;
