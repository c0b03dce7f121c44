use brain::brain::Brain;
use brain::command::Command;
use brain::engine::{Behavior, Priority, Runner, Strategy};
use brain::geometry::{Vec2, Vec3};
use brain::maneuvers::{Context, NullBehavior, Task, Wavedash, Yielder};
use brain::scenario::{CarInfo, Goal, Scenario};
use brain::trajectory::{BallState, BallTrajectory};

struct Fixed {
    interrupt: bool,
    baselines: u32,
}

impl Strategy<Context, Task> for Fixed {
    fn baseline_spec(&self, _ctx: Context, _r: Task) -> bool {
        true
    }

    fn interrupt_spec(&self, _ctx: Context, _current: Task, _r: Option<Task>) -> bool {
        true
    }

    fn baseline(&mut self, _ctx: &mut Context) -> Task {
        self.baselines += 1;
        Task::Null(NullBehavior::new())
    }

    fn interrupt(&mut self, _ctx: &mut Context, _current: &Task) -> Option<Task> {
        if self.interrupt {
            Some(Task::Null(NullBehavior::new()))
        } else {
            None
        }
    }
}

fn context(time: u32, on_ground: bool) -> Context {
    let me = CarInfo {
        loc: Vec3::new(0, 0, 17),
        vel: Vec3::zero(),
        forward: Vec2::new(0, 1000),
        pitch: 0,
        roll: 0,
        on_ground,
        double_jumped: false,
        ang_vel: Vec3::zero(),
        roof: Vec3::new(0, 0, 1000),
        boost: 0,
    };
    let traj = BallTrajectory::from_states(&vec![BallState { loc: Vec3::new(0, 2000, 93), vel: Vec3::zero() }; 10], 1);
    let goals = (Goal { center: Vec2::new(0, -5120), half_width: 893 }, Goal { center: Vec2::new(0, 5120), half_width: 893 });
    Context { time, scenario: Scenario::new(traj, me, vec![], goals.0, goals.1) }
}

fn hold(throttle: i16, ticks: u32) -> Task {
    Task::Yielder(Yielder::new(ticks, Command { throttle, ..Command::neutral() }))
}

#[test]
fn call_pushes_and_return_pops() {
    let once = Task::Once(Some(Box::new(hold(500, 3))));
    let mut runner = Runner::with_current(Fixed { interrupt: false, baselines: 0 }, once);
    let c = runner.tick(&mut context(10, true));
    assert_eq!(c.throttle, 500);
    assert_eq!(runner.depth(), 2);
    runner.tick(&mut context(11, true));
    assert_eq!(runner.depth(), 2);
    let c = runner.tick(&mut context(13, true));
    assert_eq!(c, Command::neutral());
    assert_eq!(runner.depth(), 1);
    assert_eq!(runner.top().unwrap().name(), "Once");
}

#[test]
fn empty_stack_asks_for_a_baseline() {
    let mut runner: Runner<Task, Fixed> = Runner::new(Fixed { interrupt: false, baselines: 0 });
    assert_eq!(runner.depth(), 0);
    let c = runner.tick(&mut context(0, true));
    assert_eq!(c, Command::neutral());
    assert_eq!(runner.depth(), 1);
    assert_eq!(runner.top().unwrap().name(), "NullBehavior");
}

#[test]
fn abort_at_the_root_empties_the_stack_and_reselects() {
    let chain = Task::Chain(Priority::Idle, vec![Task::Wavedash(Wavedash::new())]);
    let mut runner = Runner::with_current(Fixed { interrupt: false, baselines: 0 }, chain);
    let c = runner.tick(&mut context(0, false));
    assert_eq!(c, Command::neutral());
    assert_eq!(runner.depth(), 1);
    assert_eq!(runner.top().unwrap().name(), "NullBehavior");
}

#[test]
fn chain_runs_children_in_turn() {
    let chain = Task::Chain(Priority::Striking, vec![hold(100, 2), hold(200, 2)]);
    let mut runner = Runner::with_current(Fixed { interrupt: false, baselines: 0 }, chain);
    assert_eq!(runner.tick(&mut context(0, true)).throttle, 100);
    assert_eq!(runner.depth(), 2);
    assert_eq!(runner.tick(&mut context(2, true)).throttle, 200);
    assert_eq!(runner.depth(), 2);
    assert_eq!(runner.tick(&mut context(4, true)), Command::neutral());
    assert_eq!(runner.top().unwrap().name(), "NullBehavior");
}

#[test]
fn tail_call_keeps_the_depth() {
    let blitz = Task::BlitzToLocation(Vec2::new(0, 8000));
    let mut runner = Runner::with_current(Fixed { interrupt: false, baselines: 0 }, blitz);
    let mut ctx = context(0, true);
    let c = runner.tick(&mut ctx);
    assert_eq!(c, Command::neutral());
    assert_eq!(runner.depth(), 2);
    assert_eq!(runner.top().unwrap().name(), "Yielder");
}

#[test]
fn force_task_is_never_interrupted() {
    let mut runner = Runner::with_current(Fixed { interrupt: true, baselines: 0 }, Task::Wavedash(Wavedash::new()));
    let c = runner.tick(&mut context(0, true));
    assert!(c.jump);
    assert_eq!(runner.top().unwrap().name(), "Wavedash");
    assert_eq!(runner.top().unwrap().priority(), Priority::Force);
}

#[test]
fn ordinary_task_is_interrupted() {
    let mut runner = Runner::with_current(Fixed { interrupt: true, baselines: 0 }, hold(300, 100));
    let c = runner.tick(&mut context(0, true));
    assert_eq!(c, Command::neutral());
    assert_eq!(runner.depth(), 1);
    assert_eq!(runner.top().unwrap().name(), "NullBehavior");
}

#[test]
fn commands_are_clamped() {
    let mut runner = Runner::with_current(Fixed { interrupt: false, baselines: 0 }, Task::Yielder(Yielder::new(5, Command { throttle: 5000, steer: -3000, yaw: 999, ..Command::neutral() })));
    let c = runner.tick(&mut context(0, true));
    assert_eq!(c.throttle, 1000);
    assert_eq!(c.steer, -1000);
    assert_eq!(c.yaw, 999);
}

#[test]
fn null_behavior_idles() {
    let mut runner = Runner::with_current(Fixed { interrupt: false, baselines: 0 }, Task::Null(NullBehavior::new()));
    for t in 0..5 {
        assert_eq!(runner.tick(&mut context(t, true)), Command::neutral());
        assert_eq!(runner.depth(), 1);
    }
}

#[test]
fn delay_waits_for_the_clock() {
    let delay = Task::Delay(100, Some(Box::new(hold(700, 10))));
    let mut runner = Runner::with_current(Fixed { interrupt: false, baselines: 0 }, delay);
    assert_eq!(runner.tick(&mut context(50, true)), Command::neutral());
    assert_eq!(runner.depth(), 1);
    assert_eq!(runner.tick(&mut context(100, true)).throttle, 700);
    assert_eq!(runner.depth(), 2);
}

#[test]
fn brain_keeps_player_index_and_behavior() {
    let mut b = Brain::with_behavior(Fixed { interrupt: false, baselines: 0 }, hold(400, 10));
    b.set_player_index(1);
    assert_eq!(b.player_index(), Some(1));
    assert_eq!(b.tick(&mut context(0, true)).throttle, 400);
    b.set_behavior(hold(-400, 10));
    assert_eq!(b.tick(&mut context(1, true)).throttle, -400);
    assert_eq!(b.last_quick_chat, 0);
}
