use fourbar::geometry::Point;
use fourbar::geometry::dist_sq;
use fourbar::geometry::distance;
use fourbar::geometry::direction;
use fourbar::linkage::LinkageState;
use fourbar::linkage::Rotation;
use fourbar::linkage::UnreachableConfiguration;
use fourbar::motion::generate_coupler_curve;
use fourbar::motion::step;
use fourbar::solver::solve_dependent;
use fourbar::tracer::trace_point;

const SCALE: f64 = 1000.0;

fn pt(x: i64, y: i64) -> Point {
    Point { x, y }
}

/// A fully rotatable crank-rocker configuration, in thousandths.
fn example_state() -> LinkageState {
    LinkageState {
        rocker_joint: pt(550_000, 350_000),
        crank_joint: pt(300_000, 400_000),
        crank_ground: pt(350_000, 550_000),
        rocker_ground: pt(600_000, 600_000),
        tracer_point: pt(440_000, 550_000),
    }
}

fn rot_of(angle: f64) -> Rotation {
    Rotation {
        cos: (angle.cos() * 65536.0).round() as i64,
        sin: (angle.sin() * 65536.0).round() as i64,
    }
}

fn angle_of(p1: &Point, p2: &Point) -> f64 {
    (-((p1.y - p2.y) as f64)).atan2((p1.x - p2.x) as f64)
}

#[test]
fn distance_exact_values() {
    assert_eq!(distance(&pt(0, 0), &pt(3, 4)), 5);
    assert_eq!(distance(&pt(-3, -4), &pt(0, 0)), 5);
    assert_eq!(distance(&pt(0, 0), &pt(2, 0)), 2);
    assert_eq!(distance(&pt(0, 0), &pt(1, 1)), 1);
    assert_eq!(dist_sq(&pt(-3, -4), &pt(0, 0)), 25);
    assert_eq!(dist_sq(&pt(1, 1), &pt(1, 1)), 0);
}

#[test]
fn direction_flips_vertical_axis() {
    let d = direction(&pt(550, 350), &pt(300, 400));
    assert_eq!(d, pt(250, 50));
    let d = direction(&pt(0, 10), &pt(0, 0));
    assert_eq!(d, pt(0, -10));
}

#[test]
fn solver_exact_three_four_five() {
    // Coupler and rocker of length 5, ground pivot 8 away from the driving
    // point: the circles meet exactly at (4, -3) on the solver's branch.
    let st = LinkageState {
        rocker_joint: pt(4, 3),
        crank_joint: pt(0, 0),
        crank_ground: pt(0, 5),
        rocker_ground: pt(8, 0),
        tracer_point: pt(1, 1),
    };
    let r = solve_dependent(&pt(0, 0), &st);
    assert_eq!(r, Ok(pt(4, -3)));
}

#[test]
fn solver_is_deterministic() {
    let st = example_state();
    let driving = pt(310_000, 390_000);
    let a = solve_dependent(&driving, &st);
    let b = solve_dependent(&driving, &st);
    assert_eq!(a, b);
    assert!(a.is_ok());
}

#[test]
fn solver_result_lies_on_both_circles() {
    let st = example_state();
    let driving = pt(310_000, 390_000);
    let r = solve_dependent(&driving, &st).unwrap();
    let q1 = dist_sq(&st.rocker_joint, &st.crank_joint) as f64;
    let q2 = dist_sq(&st.rocker_joint, &st.rocker_ground) as f64;
    let to_driving = dist_sq(&r, &driving) as f64;
    let to_ground = dist_sq(&r, &st.rocker_ground) as f64;
    assert!(((to_driving - q1) / q1).abs() < 1e-4);
    assert!(((to_ground - q2) / q2).abs() < 1e-4);
}

#[test]
fn solver_reports_unreachable() {
    // Tiny coupler and rocker, ground pivots far apart: no crank position
    // can reach the rocker-ground circle.
    let st = LinkageState {
        rocker_joint: pt(0, 0),
        crank_joint: pt(1, 0),
        crank_ground: pt(100_000, 0),
        rocker_ground: pt(0, 1),
        tracer_point: pt(0, 0),
    };
    let r = solve_dependent(&pt(99_999, 0), &st);
    assert_eq!(r, Err(UnreachableConfiguration));
}

#[test]
fn tracer_still_coupler_keeps_tracer() {
    let st = example_state();
    let r = trace_point(&st.crank_joint, &st.rocker_joint, &st);
    assert_eq!(r, Some(st.tracer_point));
}

#[test]
fn tracer_quarter_turn_rotates_offset() {
    let st = LinkageState {
        rocker_joint: pt(1, 0),
        crank_joint: pt(0, 0),
        crank_ground: pt(0, 10),
        rocker_ground: pt(10, 0),
        tracer_point: pt(2, 3),
    };
    // The coupler direction turns from (1, 0) to (0, 1) in screen
    // coordinates; the offset (2, 3) must turn the same way, to (-3, 2).
    let r = trace_point(&pt(0, 0), &pt(0, 1), &st);
    assert_eq!(r, Some(pt(-3, 2)));
}

#[test]
fn curve_has_resolution_plus_one_points() {
    let st = example_state();
    let resolution = 100;
    let turn = rot_of(2.0 * std::f64::consts::PI / resolution as f64);
    let pts = generate_coupler_curve(&st, resolution, &turn);
    assert_eq!(pts.len(), resolution + 1);
    assert_eq!(*pts.last().unwrap(), st.tracer_point);
    let first = pts[0];
    assert!((first.x - st.tracer_point.x).abs() <= 100);
    assert!((first.y - st.tracer_point.y).abs() <= 100);
}

#[test]
fn curve_skips_unreachable_samples() {
    // Coupler and rocker of length 1, crank ground far away: only the very
    // first sample (the crank's current position) is reachable; the other
    // nine put the driving point far outside the rocker's reach and are
    // skipped, leaving that one sample plus the closing point.
    let st = LinkageState {
        rocker_joint: pt(0, 0),
        crank_joint: pt(1, 0),
        crank_ground: pt(100_000, 0),
        rocker_ground: pt(0, 1),
        tracer_point: pt(7, 7),
    };
    let turn = rot_of(2.0 * std::f64::consts::PI / 10.0);
    let pts = generate_coupler_curve(&st, 10, &turn);
    assert_eq!(pts.len(), 2);
    // At the first sample the circles meet at (0, 0) and (1, 1); the solver's
    // branch picks (1, 1), and the tracer offset turns with the coupler.
    assert_eq!(pts[0], pt(8, -6));
    assert_eq!(pts[1], pt(7, 7));
}

#[test]
fn step_advances_crank_angle_and_keeps_crank_length() {
    let mut st = example_state();
    let before = st;
    let old_angle = angle_of(&before.crank_joint, &before.crank_ground);
    let r = step(&mut st, &rot_of(0.02));
    assert!(r.is_ok());

    // Ground pivots never move.
    assert_eq!(st.crank_ground, before.crank_ground);
    assert_eq!(st.rocker_ground, before.rocker_ground);

    // The crank length is preserved: about 158.113883 in world units.
    let crank_len = (dist_sq(&st.crank_joint, &st.crank_ground) as f64).sqrt() / SCALE;
    assert!((crank_len - 158.113883).abs() < 0.02);

    // The crank angle advanced by 0.02 radians.
    let new_angle = angle_of(&st.crank_joint, &st.crank_ground);
    let mut diff = new_angle - old_angle;
    while diff < -std::f64::consts::PI {
        diff += 2.0 * std::f64::consts::PI;
    }
    while diff > std::f64::consts::PI {
        diff -= 2.0 * std::f64::consts::PI;
    }
    assert!((diff - 0.02).abs() < 1e-4);
}

#[test]
fn four_quarter_turns_return_to_start() {
    let mut st = example_state();
    let before = st;
    let quarter = rot_of(std::f64::consts::PI / 2.0);
    assert_eq!(quarter, Rotation { cos: 0, sin: 65536 });
    for _ in 0..4 {
        let r = step(&mut st, &quarter);
        assert!(r.is_ok());
    }
    let close = |a: Point, b: Point| (a.x - b.x).abs() <= 50 && (a.y - b.y).abs() <= 50;
    assert!(close(st.crank_joint, before.crank_joint));
    assert!(close(st.rocker_joint, before.rocker_joint));
    assert!(close(st.tracer_point, before.tracer_point));
}

#[test]
fn step_on_unreachable_state_reports_and_holds() {
    let mut st = LinkageState {
        rocker_joint: pt(0, 0),
        crank_joint: pt(1, 0),
        crank_ground: pt(100_000, 0),
        rocker_ground: pt(0, 1),
        tracer_point: pt(0, 0),
    };
    let before = st;
    let r = step(&mut st, &rot_of(0.02));
    assert_eq!(r, Err(UnreachableConfiguration));
    assert_eq!(st, before);
}
