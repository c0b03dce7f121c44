use brain::car1d::{forward_dodge, Car1D};
use brain::field::{avoid_smacking_goal_wall_waypoint, max_curvature};
use brain::geometry::{Vec2, Vec3};
use brain::routing::{
    at_least_one_ok, fastest, plan_straight_simple, CarState, GroundStraightPlanner, RoutePlan,
    RoutePlanError, Segment, StraightDodgeCalculator, StraightMode,
};

fn car(loc: (i16, i16), vel: (i16, i16), forward: (i16, i16)) -> CarState {
    CarState {
        loc: Vec3::new(loc.0, loc.1, 17),
        vel: Vec3::new(vel.0, vel.1, 0),
        forward: Vec2::new(forward.0, forward.1),
        pitch: 0,
        roll: 0,
        on_ground: true,
        boost: 0,
    }
}

#[test]
fn straight_planner_skidding_start_recovers_toward_target() {
    let start = car((0, 0), (0, 1000), (1000, 0));
    let target = Vec2::new(0, 3000);
    let planner = GroundStraightPlanner::new(target, None, 0, StraightMode::Asap);
    match planner.plan(&start) {
        Err(RoutePlanError::MustNotBeSkidding { recover_target_loc }) => {
            assert_eq!(recover_target_loc, target)
        }
        _ => panic!("expected MustNotBeSkidding"),
    }
}

#[test]
fn straight_planner_needs_flat_ground() {
    let mut start = car((0, 0), (0, 0), (0, 1000));
    start.on_ground = false;
    let planner = GroundStraightPlanner::new(Vec2::new(0, 3000), None, 0, StraightMode::Asap);
    assert!(matches!(planner.plan(&start), Err(RoutePlanError::MustBeOnFlatGround)));
    let mut tilted = car((0, 0), (0, 0), (0, 1000));
    tilted.roll = 300;
    assert!(matches!(planner.plan(&tilted), Err(RoutePlanError::MustBeOnFlatGround)));
}

#[test]
fn straight_planner_needs_to_face_target() {
    let start = car((0, 0), (0, 0), (1000, 0));
    let planner = GroundStraightPlanner::new(Vec2::new(0, 3000), None, 0, StraightMode::Asap);
    assert!(matches!(planner.plan(&start), Err(RoutePlanError::MustBeFacingTarget)));
}

#[test]
fn straight_planner_starts_from_the_given_state() {
    let mut start = car((100, -200), (0, 1200), (0, 1000));
    start.boost = 40;
    let planner = GroundStraightPlanner::new(Vec2::new(100, 4000), None, 0, StraightMode::Asap);
    let plan = planner.plan(&start).unwrap();
    assert_eq!(plan.segments[0].start(), start.to_2d());
    let simple = plan_straight_simple(&start, Vec2::new(100, 4000), 0, StraightMode::Asap).unwrap();
    assert!(plan.duration() <= simple.duration());
}

#[test]
fn long_drive_from_moderate_speed_uses_a_dodge() {
    let start = car((0, -4000), (0, 1000), (0, 1000));
    let planner = GroundStraightPlanner::new(Vec2::new(0, 4000), None, 0, StraightMode::Asap);
    let plan = planner.plan(&start).unwrap();
    assert_eq!(plan.segments.len(), 3);
    assert!(matches!(plan.segments[1], Segment::Dodge(_)));
    assert_eq!(plan.segments[0].start(), start.to_2d());
}

#[test]
fn dodge_is_refused_when_target_is_too_close() {
    let calc = StraightDodgeCalculator {
        start: car((0, 0), (0, 2000), (0, 1000)),
        target_loc: Vec2::new(0, 500),
        target_time: None,
        end_chop: 0,
    };
    assert!(calc.best().is_none());
}

#[test]
fn more_end_chop_never_makes_the_dodge_faster() {
    let mut last = 0u32;
    for chop in [0u32, 30, 60, 120] {
        let calc = StraightDodgeCalculator {
            start: car((0, -4000), (0, 800), (0, 1000)),
            target_loc: Vec2::new(0, 4000),
            target_time: None,
            end_chop: chop,
        };
        let best = calc.best().expect("a dodge fits");
        assert!(best.score >= last);
        last = best.score;
    }
}

#[test]
fn dodge_respects_target_time() {
    let calc = StraightDodgeCalculator {
        start: car((0, -4000), (0, 800), (0, 1000)),
        target_loc: Vec2::new(0, 4000),
        target_time: Some(100),
        end_chop: 0,
    };
    assert!(calc.best().is_none());
}

#[test]
fn at_least_one_ok_keeps_successes_in_order() {
    let r: Result<Vec<u32>, &str> = at_least_one_ok(vec![Err("a"), Ok(1), Err("b"), Ok(2)]);
    assert_eq!(r.unwrap(), vec![1, 2]);
    let e: Result<Vec<u32>, &str> = at_least_one_ok(vec![Err("a"), Err("b")]);
    assert_eq!(e.unwrap_err(), "b");
}

#[test]
fn fastest_prefers_the_first_of_equals() {
    let start = car((0, 0), (0, 0), (0, 1000));
    let a = plan_straight_simple(&start, Vec2::new(0, 2000), 0, StraightMode::Asap).unwrap();
    let b = plan_straight_simple(&start, Vec2::new(0, 2000), 0, StraightMode::Real).unwrap();
    let c = plan_straight_simple(&start, Vec2::new(0, 1000), 0, StraightMode::Asap).unwrap();
    let d_c = c.duration();
    let pick = fastest(vec![a, b, c]);
    assert_eq!(pick.duration(), d_c);
    let a2 = plan_straight_simple(&start, Vec2::new(0, 2000), 0, StraightMode::Asap).unwrap();
    let b2 = plan_straight_simple(&start, Vec2::new(0, 2000), 0, StraightMode::Real).unwrap();
    let pick2: RoutePlan = fastest(vec![a2, b2]);
    match pick2.segments[0] {
        Segment::Straight(s) => assert_eq!(s.mode, StraightMode::Asap),
        _ => panic!("expected a straight segment"),
    }
}

#[test]
fn end_chop_shortens_the_straight() {
    let start = car((0, 0), (0, 0), (0, 1000));
    let full = plan_straight_simple(&start, Vec2::new(0, 2000), 0, StraightMode::Asap).unwrap();
    let chopped = plan_straight_simple(&start, Vec2::new(0, 2000), 30, StraightMode::Asap).unwrap();
    assert_eq!(full.duration(), chopped.duration() + 30);
}

#[test]
fn car1d_accelerates_and_coasts() {
    let mut c = Car1D::new(0);
    c.step(true, false);
    assert_eq!(c.speed(), 13);
    assert_eq!(c.distance_x120(), 13);
    let mut m = Car1D::new(3000);
    assert_eq!(m.speed(), 2300);
    m.multi_step(10, false, false);
    assert_eq!(m.speed(), 2260);
    assert_eq!(m.time(), 10);
    let mut b = Car1D::new(0).with_boost(100);
    b.step(true, true);
    assert_eq!(b.speed(), 21);
}

#[test]
fn forward_dodge_adds_impulse_up_to_top_speed() {
    let d = forward_dodge(1000);
    assert_eq!(d.end_speed, 1500);
    assert_eq!(d.duration, 160);
    assert_eq!(d.end_dist, 1000 * 12 + 1500 * 148);
    assert_eq!(forward_dodge(2000).end_speed, 2300);
}

#[test]
fn goal_wall_waypoint_only_inside_goal() {
    let outside = car((0, 0), (0, 0), (0, 1000));
    assert_eq!(avoid_smacking_goal_wall_waypoint(&outside), None);
    let inside_clear = car((0, 5200), (0, 0), (1000, -1000));
    assert_eq!(avoid_smacking_goal_wall_waypoint(&inside_clear), None);
    let inside_blocked = car((1000, 5200), (0, 0), (1000, -1000));
    assert_eq!(avoid_smacking_goal_wall_waypoint(&inside_blocked), Some(Vec2::new(768, 4995)));
}

#[test]
fn max_curvature_interpolates_the_table() {
    assert_eq!(max_curvature(0), 690);
    assert_eq!(max_curvature(250), 544);
    assert_eq!(max_curvature(1000), 235);
    assert_eq!(max_curvature(5000), 88);
}

#[test]
fn goal_wall_waypoint_when_parallel_to_goal_line() {
    let sideways = car((0, 5200), (0, 0), (-1000, 0));
    assert_eq!(avoid_smacking_goal_wall_waypoint(&sideways), Some(Vec2::new(-768, 4995)));
    let on_line = car((0, 5120), (0, 0), (1000, 0));
    assert_eq!(avoid_smacking_goal_wall_waypoint(&on_line), None);
}
