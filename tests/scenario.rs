use brain::geometry::{Vec2, Vec3};
use brain::scenario::{
    impending_ball_in_goal, simulate_ball_blitz, CarInfo, Goal, Scenario, POSSESSION_SATURATED,
};
use brain::trajectory::{BallState, BallTrajectory};

fn car_at(x: i16, y: i16, forward: (i16, i16)) -> CarInfo {
    CarInfo {
        loc: Vec3::new(x, y, 17),
        vel: Vec3::zero(),
        forward: Vec2::new(forward.0, forward.1),
        pitch: 0,
        roll: 0,
        on_ground: true,
        double_jumped: false,
        ang_vel: Vec3::zero(),
        roof: Vec3::new(0, 0, 1000),
        boost: 0,
    }
}

fn still_ball(x: i16, y: i16, ticks: usize) -> BallTrajectory {
    let states = vec![BallState { loc: Vec3::new(x, y, 93), vel: Vec3::zero() }; ticks];
    BallTrajectory::from_states(&states, 1)
}

fn rolling_ball(vy: i16, ticks: usize) -> BallTrajectory {
    let states: Vec<BallState> = (0..ticks)
        .map(|i| BallState {
            loc: Vec3::new(0, (i as i64 * vy as i64 / 120) as i16, 93),
            vel: Vec3::new(0, vy, 0),
        })
        .collect();
    BallTrajectory::from_states(&states, 1)
}

fn goals() -> (Goal, Goal) {
    (
        Goal { center: Vec2::new(0, -5120), half_width: 893 },
        Goal { center: Vec2::new(0, 5120), half_width: 893 },
    )
}

#[test]
fn possession_saturates_without_enemies() {
    let (own, enemy) = goals();
    let mut s = Scenario::new(still_ball(0, 0, 600), car_at(0, -1000, (0, 1000)), vec![], own, enemy);
    assert!(s.me_intercept().is_some());
    assert!(s.enemy_intercept().is_none());
    assert_eq!(s.possession(), POSSESSION_SATURATED);
}

#[test]
fn possession_saturates_when_nobody_can_reach() {
    let (own, enemy) = goals();
    let far = car_at(0, -5000, (0, 1000));
    let mut s = Scenario::new(still_ball(0, 5000, 30), far, vec![far], own, enemy);
    assert!(s.me_intercept().is_none());
    assert!(s.enemy_intercept().is_none());
    assert_eq!(s.possession(), POSSESSION_SATURATED);
}

#[test]
fn possession_is_the_margin_when_both_reach() {
    let (own, enemy) = goals();
    let me = car_at(0, -500, (0, 1000));
    let them = car_at(0, 2500, (0, -1000));
    let mut s = Scenario::new(still_ball(0, 0, 900), me, vec![them], own, enemy);
    let mine = s.me_intercept().unwrap();
    let (idx, theirs) = s.enemy_intercept().unwrap();
    assert_eq!(idx, 0);
    assert!(mine.time < theirs.time);
    assert_eq!(s.possession(), theirs.time as i64 - mine.time as i64);
    assert!(s.possession() > 0);
    assert_eq!(s.primary_enemy().unwrap().loc, them.loc);
}

#[test]
fn earliest_enemy_wins() {
    let (own, enemy) = goals();
    let me = car_at(0, -500, (0, 1000));
    let slow = car_at(0, 3000, (0, -1000));
    let quick = car_at(0, 1000, (0, -1000));
    let mut s = Scenario::new(still_ball(0, 0, 900), me, vec![slow, quick], own, enemy);
    assert_eq!(s.enemy_intercept().unwrap().0, 1);
}

#[test]
fn blitz_from_the_ball_is_immediate() {
    let traj = still_ball(100, 100, 120);
    let i = simulate_ball_blitz(&traj, &car_at(100, 100, (1000, 0))).unwrap();
    assert_eq!(i.time, 0);
    assert_eq!(i.ball_loc, Vec3::new(100, 100, 93));
}

#[test]
fn turning_around_costs_time() {
    let traj = rolling_ball(600, 600);
    let facing = simulate_ball_blitz(&traj, &car_at(0, -1000, (0, 1000))).unwrap();
    let away = simulate_ball_blitz(&traj, &car_at(0, -1000, (0, -1000))).unwrap();
    assert!(away.time > facing.time);
}

#[test]
fn impending_concede_finds_ball_in_own_goal() {
    let (own, _) = goals();
    let states: Vec<BallState> = (0..240)
        .map(|i| BallState { loc: Vec3::new(0, (-4800 - 5 * i) as i16, 93), vel: Vec3::new(0, -600, 0) })
        .collect();
    let traj = BallTrajectory::from_states(&states, 1);
    let hit = impending_ball_in_goal(&traj, &own, false).unwrap();
    assert_eq!(hit.t, 120);
    assert_eq!(hit.dt, 60);
    let strict = impending_ball_in_goal(&traj, &own, true).unwrap();
    assert_eq!(strict.t, 120);
    assert!(impending_ball_in_goal(&still_ball(0, 0, 240), &own, false).is_none());
}

#[test]
fn facts_are_kept_for_the_tick() {
    let (own, enemy) = goals();
    let mut s = Scenario::new(rolling_ball(-900, 300), car_at(0, 0, (0, 1000)), vec![], own, enemy);
    let a = s.impending_concede();
    let b = s.impending_concede();
    assert_eq!(a, b);
    assert_eq!(s.slightly_panicky_retreat(), s.slightly_panicky_retreat());
}

#[test]
fn panicky_retreat_when_everything_heads_home() {
    let (own, enemy) = goals();
    let states = vec![BallState { loc: Vec3::new(0, 0, 93), vel: Vec3::new(0, -1500, 0) }; 120];
    let traj = BallTrajectory::from_states(&states, 1);
    let mut me = car_at(0, 500, (0, 1000));
    me.vel = Vec3::new(0, -1000, 0);
    let mut them = car_at(0, 800, (0, -1000));
    them.vel = Vec3::new(0, -1200, 0);
    let mut s = Scenario::new(traj, me, vec![them], own, enemy);
    assert!(s.slightly_panicky_retreat());
    assert!(s.very_panicky_retreat());
    let calm_states = vec![BallState { loc: Vec3::new(0, 0, 93), vel: Vec3::zero() }; 60];
    let mut calm = Scenario::new(BallTrajectory::from_states(&calm_states, 1), me, vec![], own, enemy);
    assert!(!calm.slightly_panicky_retreat());
}

#[test]
fn goal_tests() {
    let (own, _) = goals();
    assert!(own.ball_is_scored(Vec3::new(0, -5220, 93)));
    assert!(!own.ball_is_scored(Vec3::new(0, -5200, 93)));
    assert!(!own.ball_is_scored_conservative(Vec3::new(0, -5250, 93)));
    assert!(own.ball_is_scored_conservative(Vec3::new(0, -5320, 93)));
    assert!(!own.ball_is_scored_conservative(Vec3::new(850, -5400, 93)));
    assert!(own.is_y_within_range(-4000, 2000));
    assert!(!own.is_y_within_range(-3000, 2000));
}

#[test]
fn scenario_keeps_its_inputs() {
    let (own, enemy) = goals();
    let them = car_at(0, 2500, (0, -1000));
    let s = Scenario::new(still_ball(0, 0, 10), car_at(0, -500, (0, 1000)), vec![them], own, enemy);
    assert_eq!(s.enemy_cars().len(), 1);
    assert_eq!(s.me().loc, Vec3::new(0, -500, 17));
    assert_eq!(s.ball_prediction().len(), 10);
}

#[test]
fn enemy_shot_clock_from_behind_the_ball() {
    let (own, enemy) = goals();
    let them = car_at(0, 1000, (0, -1000));
    let mut s = Scenario::new(rolling_ball(-600, 600), car_at(3000, 3000, (0, 1000)), vec![them], own, enemy);
    let (_, i) = s.enemy_intercept().unwrap();
    assert_eq!(i.car_speed, 600);
    let dist = (-5120 - i.ball_loc.y as i64).abs();
    let expected = (dist * 120 / 1800) as u32;
    assert_eq!(s.enemy_shoot_score_seconds(), Some(expected));
}

#[test]
fn enemy_shot_clock_without_enemies_or_pace() {
    let (own, enemy) = goals();
    let mut none = Scenario::new(still_ball(0, 0, 120), car_at(0, -500, (0, 1000)), vec![], own, enemy);
    assert_eq!(none.enemy_shoot_score_seconds(), None);
    let them = car_at(0, 500, (0, -1000));
    let mut still = Scenario::new(still_ball(0, 0, 600), car_at(0, -500, (0, 1000)), vec![them], own, enemy);
    assert!(still.enemy_intercept().is_some());
    assert_eq!(still.enemy_shoot_score_seconds(), None);
}

#[test]
fn push_factor_is_linear_in_the_angle() {
    assert_eq!(brain::scenario::acos_decideg(1000), 0);
    assert_eq!(brain::scenario::acos_decideg(500), 600);
    assert_eq!(brain::scenario::acos_decideg(0), 900);
    assert_eq!(brain::scenario::push_factor(866), 1000);
    assert_eq!(brain::scenario::push_factor(500), 500);
    assert_eq!(brain::scenario::push_factor(0), 0);
    assert_eq!(brain::scenario::push_factor(-300), 0);
}

#[test]
fn push_wall_follows_my_hit() {
    let (own, enemy) = goals();
    let mut s = Scenario::new(still_ball(0, 0, 600), car_at(0, -500, (0, 1000)), vec![], own, enemy);
    assert_eq!(s.push_wall(), brain::field::Wall::EnemyGoal);
    let mut side = Scenario::new(still_ball(1000, 0, 600), car_at(0, 0, (1000, 0)), vec![], own, enemy);
    assert_eq!(side.push_wall(), brain::field::Wall::SideWall);
}
