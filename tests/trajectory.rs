use brain::geometry::Vec3;
use brain::trajectory::{BallFrame, BallState, BallTrajectory};

fn frame(t: u32, dt: u32, x: i16) -> BallFrame {
    BallFrame { t, dt, loc: Vec3::new(x, 0, 93), vel: Vec3::new(0, 100, 0) }
}

fn even_trajectory() -> BallTrajectory {
    BallTrajectory::new(vec![frame(0, 2, 0), frame(2, 2, 10), frame(4, 2, 20), frame(6, 2, 30)])
}

#[test]
fn at_time_picks_first_frame_not_before() {
    let traj = even_trajectory();
    assert_eq!(traj.at_time(0).unwrap().t, 0);
    assert_eq!(traj.at_time(3).unwrap().t, 4);
    assert_eq!(traj.at_time(4).unwrap().t, 4);
    assert_eq!(traj.at_time(6).unwrap().loc.x, 30);
}

#[test]
fn at_time_is_none_exactly_past_the_end() {
    let traj = even_trajectory();
    assert!(traj.at_time(6).is_some());
    assert!(traj.at_time(7).is_none());
    assert!(traj.at_time(u32::MAX).is_none());
}

#[test]
fn at_time_or_last_falls_back_to_last() {
    let traj = even_trajectory();
    assert_eq!(traj.at_time_or_last(7).t, 6);
    assert_eq!(traj.at_time_or_last(1).t, 2);
}

#[test]
fn at_time_with_equal_times_takes_the_first() {
    let traj =
        BallTrajectory::new(vec![frame(0, 2, 0), frame(2, 2, 11), frame(2, 2, 22), frame(4, 2, 33)]);
    assert_eq!(traj.at_time(1).unwrap().loc.x, 11);
    assert_eq!(traj.at_time(2).unwrap().loc.x, 11);
}

#[test]
fn slice_rezeroes_the_suffix() {
    let traj = even_trajectory();
    let s = traj.hacky_expensive_slice(3);
    assert_eq!(s.len(), 2);
    assert_eq!(s.start().t, 0);
    assert_eq!(s.start().loc.x, 20);
    assert_eq!(s.frame(1).t, 2);
    assert_eq!(s.frame(1).loc.x, 30);
}

#[test]
fn slice_at_zero_keeps_everything() {
    let traj = even_trajectory();
    let s = traj.hacky_expensive_slice(0);
    assert_eq!(s.len(), 4);
    assert_eq!(s.last().t, 6);
}

#[test]
fn slice_past_the_end_is_the_last_frame() {
    let traj = even_trajectory();
    let s = traj.hacky_expensive_slice(100);
    assert_eq!(s.len(), 1);
    assert_eq!(s.start().t, 0);
    assert_eq!(s.start().loc.x, 30);
}

#[test]
fn step_by_takes_every_nth_frame() {
    let frames: Vec<BallFrame> = (0..10).map(|i| frame(i, 1, i as i16)).collect();
    let traj = BallTrajectory::new(frames);
    let stepped = traj.iter_step_by(3);
    let xs: Vec<i16> = stepped.iter().map(|f| f.loc.x).collect();
    assert_eq!(xs, vec![0, 3, 6, 9]);
    assert!(stepped.iter().all(|f| f.dt == 3));
}

#[test]
fn step_by_own_step_keeps_all() {
    let traj = even_trajectory();
    assert_eq!(traj.iter_step_by(2).len(), 4);
    assert_eq!(traj.iter_step_by(4).len(), 2);
}

#[test]
fn from_states_numbers_the_frames() {
    let states = vec![
        BallState { loc: Vec3::new(1, 2, 3), vel: Vec3::zero() },
        BallState { loc: Vec3::new(4, 5, 6), vel: Vec3::zero() },
        BallState { loc: Vec3::new(7, 8, 9), vel: Vec3::zero() },
    ];
    let traj = BallTrajectory::from_states(&states, 2);
    assert_eq!(traj.len(), 3);
    assert_eq!(traj.frame(2).t, 4);
    assert_eq!(traj.frame(2).dt, 2);
    assert_eq!(traj.frame(1).loc, Vec3::new(4, 5, 6));
}

#[test]
fn from_timed_states_moves_the_origin() {
    let states = vec![
        BallState { loc: Vec3::new(1, 0, 93), vel: Vec3::zero() },
        BallState { loc: Vec3::new(2, 0, 93), vel: Vec3::zero() },
    ];
    let traj = BallTrajectory::from_timed_states(&vec![500, 502], &states, 2);
    assert_eq!(traj.start().t, 0);
    assert_eq!(traj.last().t, 2);
    assert_eq!(traj.last().loc.x, 2);
}
