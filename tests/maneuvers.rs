use brain::command::Command;
use brain::engine::{Priority, Runner, Strategy};
use brain::field::{aim_toward_enemy_goal, choose_hit, GetToFlatGround, HitType, Shoot};
use brain::geometry::{Vec2, Vec3};
use brain::maneuvers::{
    blitz_choice, segment_plan_tester, BlitzChoice, Context, Task, Wavedash, WavedashInput,
    WavedashOutcome, WavedashPhase,
};
use brain::routing::{plan_straight_simple, CarState, Segment, StraightMode};
use brain::rules::SameBallTrajectory;
use brain::scenario::{CarInfo, Goal, Scenario};
use brain::trajectory::{BallState, BallTrajectory};

fn input(time: u32, pitch: i16, on_ground: bool, height: i16, vertical_speed: i16) -> WavedashInput {
    WavedashInput { time, pitch, on_ground, height, vertical_speed, double_jumped: false }
}

fn car(on_ground: bool) -> CarInfo {
    CarInfo {
        loc: Vec3::new(0, -3900, 17),
        vel: Vec3::new(0, 1800, 0),
        forward: Vec2::new(0, 1000),
        pitch: 0,
        roll: 0,
        on_ground,
        double_jumped: false,
        ang_vel: Vec3::zero(),
        roof: Vec3::new(0, 0, 1000),
        boost: 0,
    }
}

fn context_for(time: u32, me: CarInfo) -> Context {
    let traj = BallTrajectory::from_states(&vec![BallState { loc: Vec3::new(2000, 0, 93), vel: Vec3::zero() }; 10], 1);
    let own = Goal { center: Vec2::new(0, -5120), half_width: 893 };
    let enemy = Goal { center: Vec2::new(0, 5120), half_width: 893 };
    Context { time, scenario: Scenario::new(traj, me, vec![], own, enemy) }
}

struct DriveOn;

impl Strategy<Context, Task> for DriveOn {
    fn baseline_spec(&self, _ctx: Context, _r: Task) -> bool {
        true
    }

    fn interrupt_spec(&self, _ctx: Context, _current: Task, _r: Option<Task>) -> bool {
        true
    }

    fn baseline(&mut self, _ctx: &mut Context) -> Task {
        Task::BlitzToLocation(Vec2::new(0, 30000))
    }

    fn interrupt(&mut self, _ctx: &mut Context, _current: &Task) -> Option<Task> {
        None
    }
}

#[test]
fn wavedash_runs_through_its_phases() {
    let mut w = Wavedash::new();
    assert!(matches!(w.step(input(0, 0, true, 17, 0)), WavedashOutcome::Yield(c) if c.jump && c.pitch == 1000));
    assert_eq!(w.phase, WavedashPhase::Jump);
    assert!(matches!(w.step(input(2, 0, true, 17, 0)), WavedashOutcome::Yield(c) if !c.jump && c.pitch == 1000));
    assert_eq!(w.phase, WavedashPhase::Adjust);
    assert_eq!(w.phase_start_time, Some(2));
    assert!(matches!(w.step(input(5, 10, false, 30, 200)), WavedashOutcome::Yield(c) if c.pitch == 0 && c.throttle == 1000));
    assert_eq!(w.phase, WavedashPhase::Wait);
    assert!(matches!(w.step(input(60, 10, false, 38, -100)), WavedashOutcome::Yield(c) if c.jump && c.pitch == -1000 && c.handbrake));
    assert_eq!(w.phase, WavedashPhase::Dodge);
    assert!(matches!(w.step(input(62, 10, false, 30, -100)), WavedashOutcome::Yield(c) if c.handbrake && !c.jump));
    assert_eq!(w.phase, WavedashPhase::FollowThrough);
    assert_eq!(w.step(input(74, 0, true, 17, 0)), WavedashOutcome::Return);
    assert_eq!(w.phase, WavedashPhase::Finished);
}

#[test]
fn wavedash_aborts_when_it_leaves_the_ground_early() {
    let mut w = Wavedash::new();
    assert_eq!(w.step(input(0, 0, false, 40, 0)), WavedashOutcome::Abort);
}

#[test]
fn wavedash_aborts_after_leaning_too_long() {
    let mut w = Wavedash::new();
    w.step(input(0, 0, true, 17, 0));
    w.step(input(2, 0, true, 17, 0));
    assert_eq!(w.step(input(19, 1, false, 60, 100)), WavedashOutcome::Abort);
}

#[test]
fn wavedash_aborts_after_double_jump() {
    let mut w = Wavedash::new();
    w.step(input(0, 0, true, 17, 0));
    w.step(input(2, 0, true, 17, 0));
    w.step(input(5, 10, false, 30, 200));
    let mut late = input(20, 10, false, 60, 100);
    late.double_jumped = true;
    assert_eq!(w.step(late), WavedashOutcome::Abort);
}

#[test]
fn wavedash_estimated_duration() {
    assert_eq!(Wavedash::estimated_duration(), 122);
}

#[test]
fn wavedash_to_supersonic() {
    let chain = Task::Chain(Priority::Idle, vec![Task::Wavedash(Wavedash::new())]);
    let mut runner = Runner::with_current(DriveOn, chain);
    let mut me = car(true);
    let mut speed: f32 = 1800.0;
    let mut z: f32 = 17.01;
    let mut vz: f32 = 0.0;
    let mut pitch: f32 = 0.0;
    let mut jump_held = 0;
    let mut dodged = false;
    for tick in 0..150u32 {
        me.loc.z = z as i16;
        me.vel = Vec3::new(0, speed as i16, vz as i16);
        me.pitch = pitch as i16;
        me.on_ground = z <= 17.01 && vz <= 0.0;
        me.double_jumped = dodged;
        let c = runner.tick(&mut context_for(tick, me));
        if me.on_ground {
            if c.jump {
                jump_held += 1;
            } else if jump_held > 0 {
                vz = 292.0;
                z = 18.0;
                jump_held = 0;
            }
            if c.throttle > 0 && speed < 2300.0 {
                speed = (speed + 8.0).min(2300.0);
            }
        } else {
            if c.pitch > 0 {
                pitch += 2.0;
            }
            if c.jump && c.pitch < 0 && !dodged {
                dodged = true;
                speed = (speed + 500.0).min(2300.0);
            }
            z += vz / 120.0;
            vz -= 650.0 / 120.0;
            if z <= 17.01 {
                z = 17.01;
                vz = 0.0;
                pitch = 0.0;
            }
        }
    }
    println!("vel = {}", speed);
    assert!(dodged);
    assert!(speed >= 2200.0)
}

#[test]
fn blitz_boosts_when_far_and_lined_up() {
    let mut me = car(true);
    me.vel = Vec3::zero();
    me.boost = 50;
    assert!(matches!(blitz_choice(&me, Vec2::new(0, 0)), BlitzChoice::Boost(0)));
    me.boost = 0;
    assert_eq!(blitz_choice(&me, Vec2::new(0, 0)), BlitzChoice::Wavedash);
    assert!(matches!(blitz_choice(&me, Vec2::new(0, -3500)), BlitzChoice::Drive(0)));
    assert!(matches!(blitz_choice(&me, Vec2::new(-3000, -3900)), BlitzChoice::Drive(s) if s == 1000));
}

#[test]
fn segment_tester_drives_one_segment() {
    let start = CarState {
        loc: Vec3::new(0, 0, 17),
        vel: Vec3::zero(),
        forward: Vec2::new(0, 1000),
        pitch: 0,
        roll: 0,
        on_ground: true,
        boost: 0,
    };
    let plan = plan_straight_simple(&start, Vec2::new(0, 500), 0, StraightMode::Asap).unwrap();
    let seg: Segment = plan.segments[0];
    match segment_plan_tester(seg) {
        Task::FollowRoute(f) => {
            assert_eq!(f.segments.len(), 1);
            assert_eq!(f.index, 0);
        }
        _ => panic!("expected a route follower"),
    }
}

#[test]
fn ball_disturbance_is_detected() {
    let still: Vec<BallState> = vec![BallState { loc: Vec3::new(0, 0, 93), vel: Vec3::zero() }; 30];
    let traj = BallTrajectory::from_states(&still, 1);
    let mut rule = SameBallTrajectory::new();
    assert!(!rule.execute_old(100, &traj));
    assert_eq!(rule.prediction.unwrap().t, 112);
    assert!(!rule.execute_old(101, &traj));
    let moved: Vec<BallState> = vec![BallState { loc: Vec3::new(60, 0, 93), vel: Vec3::zero() }; 30];
    assert!(rule.execute_old(102, &BallTrajectory::from_states(&moved, 1)));
}

#[test]
fn shot_angles() {
    assert!(Shoot::good_angle(Vec3::new(0, 0, 93)));
    assert!(!Shoot::good_angle(Vec3::new(4100, 0, 93)));
    assert!(!Shoot::good_angle(Vec3::new(1000, 4700, 93)));
    assert!(Shoot::good_angle(Vec3::new(500, 4700, 93)));
    let s = Shoot::new();
    assert!(!s.finished);
}

#[test]
fn flat_ground_check() {
    let mut c = car(true);
    assert!(GetToFlatGround::on_flat_ground(&c));
    c.pitch = 300;
    assert!(!GetToFlatGround::on_flat_ground(&c));
}

#[test]
fn quicker_hit_is_chosen_and_ties_go_to_ground() {
    assert_eq!(choose_hit(Some(100), Some(80)), HitType::Wall);
    assert_eq!(choose_hit(Some(80), Some(80)), HitType::Ground);
    assert_eq!(choose_hit(None, Some(80)), HitType::Wall);
    assert_eq!(choose_hit(Some(80), None), HitType::Ground);
    assert_eq!(choose_hit(None, None), HitType::Ground);
}

#[test]
fn aim_picks_smaller_deviation() {
    let me = Vec2::new(0, 0);
    let ball = Vec2::new(0, 1000);
    assert!(aim_toward_enemy_goal(me, ball, Vec2::new(0, 5120), Vec2::new(0, -5120)));
    assert!(!aim_toward_enemy_goal(Vec2::new(0, 3000), Vec2::new(0, 2000), Vec2::new(3000, 5120), Vec2::new(0, -5120)));
}

#[test]
fn neutral_command_is_default() {
    assert_eq!(Command::default(), Command::neutral());
}

fn resting_car() -> CarInfo {
    CarInfo {
        loc: Vec3::new(0, 0, 17),
        vel: Vec3::zero(),
        forward: Vec2::new(0, 1000),
        pitch: 0,
        roll: 0,
        on_ground: true,
        double_jumped: false,
        ang_vel: Vec3::zero(),
        roof: Vec3::new(0, 0, 1000),
        boost: 0,
    }
}

#[test]
fn approach_estimate_needs_enough_time() {
    let me = resting_car();
    assert!(!brain::maneuvers::estimate_approach(&me, 500, 10));
    assert!(brain::maneuvers::estimate_approach(&me, 500, 2 * 240));
    assert!(!brain::maneuvers::estimate_approach(&me, 500, 0));
}

#[test]
fn accel_to_loc_backs_off_when_early() {
    let me = resting_car();
    let early = brain::maneuvers::accel_to_loc(&me, Vec2::new(0, 300), 1000, 0).unwrap();
    assert_eq!(early.throttle, 0);
    let late = brain::maneuvers::accel_to_loc(&me, Vec2::new(0, 3000), 60, 0).unwrap();
    assert_eq!(late.throttle, 1000);
    assert!(!late.boost);
    let mut boosty = resting_car();
    boosty.boost = 30;
    assert!(brain::maneuvers::accel_to_loc(&boosty, Vec2::new(0, 3000), 60, 0).unwrap().boost);
    let mut airborne = resting_car();
    airborne.on_ground = false;
    assert_eq!(brain::maneuvers::accel_to_loc(&airborne, Vec2::new(0, 3000), 60, 0), None);
}

#[test]
fn flat_ground_recovery_commands() {
    let mut me = resting_car();
    assert_eq!(brain::maneuvers::flat_ground_command(&me), None);
    me.on_ground = false;
    me.pitch = 400;
    me.roll = -1500;
    let c = brain::maneuvers::flat_ground_command(&me).unwrap();
    assert_eq!((c.pitch, c.roll, c.throttle), (-400, 1000, 1000));
    me.on_ground = true;
    me.roll = 3000;
    me.roof = Vec3::new(0, 0, -1000);
    assert!(brain::maneuvers::flat_ground_command(&me).unwrap().jump);
    // On a wall (roof pointing sideways), steer towards ahead-and-below in the car's frame.
    me.roll = 1571;
    me.roof = Vec3::new(-1000, 0, 0);
    let c = brain::maneuvers::flat_ground_command(&me).unwrap();
    assert!(!c.jump && c.throttle == 1000 && c.steer == -1000);
}

#[test]
fn rough_drive_time_grows_with_turning() {
    let me = resting_car();
    let ahead = brain::maneuvers::rough_time_drive_to_loc(&me, Vec2::new(0, 2000));
    let behind = brain::maneuvers::rough_time_drive_to_loc(&me, Vec2::new(0, -2000));
    assert_eq!(behind, ahead + 188);
    assert_eq!(brain::maneuvers::rough_time_drive_to_loc(&me, Vec2::new(0, 0)), 2);
}

#[test]
fn accel_task_calls_recovery_when_tilted() {
    let mut me = resting_car();
    me.roll = 3000;
    me.roof = Vec3::new(0, 0, -1000);
    let mut runner = Runner::with_current(DriveOn, Task::GroundAccelToLoc(Vec2::new(0, 3000), 500));
    let c = runner.tick(&mut context_for(0, me));
    assert!(c.jump);
    assert_eq!(runner.depth(), 2);
}

#[test]
fn wall_hits_only_on_side_walls_and_upfield() {
    let own = Goal { center: Vec2::new(0, -5120), half_width: 893 };
    let enemy = Goal { center: Vec2::new(0, 5120), half_width: 893 };
    let me = Vec2::new(3000, 0);
    assert_eq!(brain::field::wall_hit(me, Vec3::new(4000, 1000, 300), 90, &enemy, &own), Some(90));
    assert_eq!(brain::field::wall_hit(me, Vec3::new(3500, 1000, 300), 90, &enemy, &own), None);
    assert_eq!(brain::field::wall_hit(me, Vec3::new(4000, -1000, 300), 90, &enemy, &own), None);
}

#[test]
fn chippable_corner_ball() {
    let enemy = Goal { center: Vec2::new(0, 5120), half_width: 893 };
    let car = Vec2::new(4000, 2000);
    let fwd = Vec2::new(0, 1000);
    assert!(brain::field::is_chippable(car, fwd, Vec3::new(3500, 4000, 100), Vec2::new(3500, 5000), &enemy));
    assert!(!brain::field::is_chippable(car, fwd, Vec3::new(3500, 4000, 200), Vec2::new(3500, 5000), &enemy));
    assert!(!brain::field::is_chippable(car, fwd, Vec3::new(2000, 4000, 100), Vec2::new(3500, 5000), &enemy));
    assert!(!brain::field::is_chippable(Vec2::new(3000, 3000), fwd, Vec3::new(3500, 4000, 100), Vec2::new(3500, 5000), &enemy));
    assert!(!brain::field::is_chippable(car, Vec2::new(1000, 0), Vec3::new(3500, 4000, 100), Vec2::new(3500, 5000), &enemy));
}

#[test]
fn wavedash_aborts_when_wait_runs_long() {
    let mut w = Wavedash::new();
    w.step(input(0, 0, true, 17, 0));
    w.step(input(2, 0, true, 17, 0));
    w.step(input(5, 10, false, 30, 200));
    assert_eq!(w.phase, WavedashPhase::Wait);
    assert!(matches!(w.step(input(127, 10, false, 60, 100)), WavedashOutcome::Yield(_)));
    assert_eq!(w.step(input(128, 10, false, 60, 100)), WavedashOutcome::Abort);
    assert_eq!(w.phase, WavedashPhase::Wait);
}

#[test]
fn wavedash_aborts_on_ground_contact_mid_dodge() {
    let mut w = Wavedash::new();
    w.step(input(0, 0, true, 17, 0));
    w.step(input(2, 0, true, 17, 0));
    w.step(input(5, 10, false, 30, 200));
    w.step(input(60, 10, false, 38, -100));
    assert_eq!(w.phase, WavedashPhase::Dodge);
    assert_eq!(w.step(input(61, 10, true, 17, 0)), WavedashOutcome::Abort);
    assert_eq!(w.phase, WavedashPhase::Dodge);
}

#[test]
fn recovery_sits_tight_while_spinning() {
    let mut me = resting_car();
    me.on_ground = false;
    me.pitch = 400;
    me.ang_vel = Vec3::new(0, 6000, 0);
    let c = brain::maneuvers::flat_ground_command(&me).unwrap();
    assert_eq!((c.throttle, c.pitch, c.roll), (1000, 0, 0));
}

#[test]
fn shot_aim_refuses_own_goal() {
    let own = Goal { center: Vec2::new(0, -5120), half_width: 893 };
    let ball = Vec2::new(0, -4000);
    assert_eq!(brain::field::wall_for_ray(ball, Vec2::new(0, -4500), &own), brain::field::Wall::OwnGoal);
    assert_eq!(brain::field::wall_for_ray(ball, Vec2::new(0, 0), &own), brain::field::Wall::EnemyGoal);
    assert_eq!(brain::field::wall_for_ray(ball, Vec2::new(1000, -4000), &own), brain::field::Wall::SideWall);
    assert_eq!(brain::field::wall_for_ray(ball, Vec2::new(1000, -4500), &own), brain::field::Wall::OwnBackWall);
    // Standing upfield of the ball, aiming at the enemy goal deviates more than aiming away
    // from our goal, and the away direction points back into our own goal: refused.
    let me = Vec2::new(0, -3000);
    let refused = brain::field::time_wasting_aim(me, ball, Vec2::new(0, 5120), Vec2::new(0, -3000), &own);
    assert_eq!(refused, Err(()));
    let fine = brain::field::time_wasting_aim(Vec2::new(0, -4500), ball, Vec2::new(0, 5120), Vec2::new(0, -5120), &own);
    assert_eq!(fine, Ok(Vec2::new(0, 5120)));
}

#[test]
fn boundary_point_of_a_shot_line() {
    let o = Vec2::new(0, 0);
    assert_eq!(brain::field::boundary_point(o, Vec2::new(100, 1000)), Vec2::new(512, 5120));
    assert_eq!(brain::field::boundary_point(o, Vec2::new(1000, 1000)), Vec2::new(4096, 4096));
    assert_eq!(brain::field::boundary_point(o, Vec2::new(-1000, 0)), Vec2::new(-4096, 0));
    assert_eq!(brain::field::boundary_point(o, Vec2::new(-100, -1000)), Vec2::new(-512, -5120));
    assert_eq!(brain::field::boundary_point(Vec2::new(5, 5), Vec2::new(5, 5)), Vec2::new(5, 5));
}

#[test]
fn shot_aim_is_clipped_to_the_boundary() {
    let own = Goal { center: Vec2::new(0, -5120), half_width: 893 };
    let aim = brain::field::time_wasting_aim(Vec2::new(0, -1000), Vec2::new(0, 0), Vec2::new(100, 1000), Vec2::new(0, -5120), &own);
    assert_eq!(aim, Ok(Vec2::new(512, 5120)));
}
