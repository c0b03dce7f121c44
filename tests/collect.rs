use brain::collect::{
    AirAxis, AirRotateAccel, AirRotateCoast, AirRotateCounter, Coast, Dodge, DodgePhase, Jump,
    PowerslideTurn, ScenarioInput, SimpleScenarioStepResult, Throttle, Turn, Wavedash,
    WavedashPhase,
};
use brain::command::Command;

fn at(time: u32) -> ScenarioInput {
    ScenarioInput { time, speed: 0, pitch: 0, height: 17, vertical_speed: 0 }
}

#[test]
fn throttle_scenario_timeline() {
    let mut s = Throttle::new(true);
    assert_eq!(s.name(), "boost");
    assert_eq!(s.step(at(0)), SimpleScenarioStepResult::Ignore(Command::neutral()));
    match s.step(at(300)) {
        SimpleScenarioStepResult::Write(c) => assert!(c.boost && c.throttle == 1000),
        _ => panic!("expected a recorded tick"),
    }
    assert_eq!(s.step(at(600)), SimpleScenarioStepResult::Finish);
    assert_eq!(Throttle::new(false).name(), "throttle");
}

#[test]
fn coast_and_jump_timelines() {
    let mut c = Coast::new();
    assert!(matches!(c.step(at(100)), SimpleScenarioStepResult::Ignore(x) if x.boost));
    assert_eq!(c.step(at(500)), SimpleScenarioStepResult::Write(Command::neutral()));
    assert_eq!(c.step(at(840)), SimpleScenarioStepResult::Finish);
    let mut j = Jump::new();
    assert!(matches!(j.step(at(200)), SimpleScenarioStepResult::Write(x) if x.jump));
    assert_eq!(j.step(at(420)), SimpleScenarioStepResult::Finish);
}

#[test]
fn turn_starts_at_speed() {
    let mut t = Turn::new(1500);
    assert!(matches!(t.step(ScenarioInput { speed: 1000, ..at(10) }), SimpleScenarioStepResult::Ignore(c) if c.boost && c.throttle == 1000));
    assert!(matches!(t.step(ScenarioInput { speed: 1500, ..at(20) }), SimpleScenarioStepResult::Write(c) if c.steer == 1000));
    assert_eq!(t.start_time, Some(20));
    assert_eq!(t.step(at(380)), SimpleScenarioStepResult::Finish);
    let mut slow = Turn::new(500);
    assert!(matches!(slow.step(at(0)), SimpleScenarioStepResult::Ignore(c) if c.throttle == 500 && !c.boost));
}

#[test]
fn powerslide_uses_handbrake() {
    let mut p = PowerslideTurn::new(1000, 300);
    assert!(matches!(p.step(ScenarioInput { speed: 1200, ..at(5) }), SimpleScenarioStepResult::Write(c) if c.handbrake && c.throttle == 300));
    assert_eq!(p.step(at(365)), SimpleScenarioStepResult::Finish);
}

#[test]
fn air_rotation_scenarios() {
    assert_eq!(AirAxis::all(), vec![AirAxis::Pitch, AirAxis::Yaw, AirAxis::Roll]);
    assert_eq!(AirAxis::Yaw.as_str(), "yaw");
    let mut a = AirRotateAccel::new(AirAxis::Roll);
    assert!(matches!(a.step(at(50)), SimpleScenarioStepResult::Write(c) if c.roll == 1000));
    assert_eq!(a.step(at(170)), SimpleScenarioStepResult::Finish);
    let mut c = AirRotateCoast::new(AirAxis::Pitch);
    assert!(matches!(c.step(at(0)), SimpleScenarioStepResult::Ignore(x) if x.pitch == 1000));
    assert_eq!(c.step(at(200)), SimpleScenarioStepResult::Write(Command::neutral()));
    assert_eq!(c.step(at(360)), SimpleScenarioStepResult::Finish);
    let mut k = AirRotateCounter::new(AirAxis::Yaw);
    k.step(at(0));
    assert!(matches!(k.step(at(150)), SimpleScenarioStepResult::Write(x) if x.yaw == -1000));
    assert_eq!(k.step(at(240)), SimpleScenarioStepResult::Finish);
}

#[test]
fn recorded_dodge_phases() {
    let mut d = Dodge::new(1000);
    assert!(matches!(d.step(ScenarioInput { speed: 500, ..at(0) }), SimpleScenarioStepResult::Write(c) if c.throttle == 1000 && !c.boost));
    assert!(matches!(d.step(ScenarioInput { speed: 1000, ..at(10) }), SimpleScenarioStepResult::Write(c) if c.jump && c.pitch == 0));
    assert_eq!(d.phase, DodgePhase::Jump(10));
    assert_eq!(d.step(at(16)), SimpleScenarioStepResult::Write(Command::neutral()));
    assert!(matches!(d.step(at(22)), SimpleScenarioStepResult::Write(c) if c.jump && c.pitch == -1000));
    assert_eq!(d.step(at(28)), SimpleScenarioStepResult::Write(Command::neutral()));
    assert_eq!(d.phase, DodgePhase::Land(28));
    assert_eq!(d.step(at(268)), SimpleScenarioStepResult::Finish);
}

#[test]
fn recorded_wavedash_phases() {
    let mut w = Wavedash::new(1200);
    assert!(matches!(w.step(ScenarioInput { speed: 100, ..at(0) }), SimpleScenarioStepResult::Ignore(c) if c.boost));
    assert!(matches!(w.step(ScenarioInput { speed: 1200, ..at(4) }), SimpleScenarioStepResult::Write(c) if c.jump));
    assert!(matches!(w.step(ScenarioInput { pitch: 3, ..at(6) }), SimpleScenarioStepResult::Write(c) if c.pitch == 1000 && !c.jump));
    assert!(matches!(w.phase, WavedashPhase::Adjust(6)));
    assert!(matches!(w.step(ScenarioInput { pitch: 12, height: 60, vertical_speed: 100, ..at(9) }), SimpleScenarioStepResult::Write(c) if c.pitch == 0));
    assert!(matches!(w.step(ScenarioInput { height: 35, vertical_speed: -50, ..at(80) }), SimpleScenarioStepResult::Write(c) if c.handbrake && c.jump));
    assert!(matches!(w.step(at(82)), SimpleScenarioStepResult::Write(c) if c.handbrake && !c.jump));
    assert_eq!(w.step(at(322)), SimpleScenarioStepResult::Finish);
}

#[test]
fn accelerate_phase_holds_until_speed() {
    let mut d = Dodge::new(1500);
    d.step(ScenarioInput { speed: 1499, ..at(0) });
    assert_eq!(d.phase, DodgePhase::Accelerate);
    assert!(matches!(d.step(ScenarioInput { speed: 1500, ..at(3) }), SimpleScenarioStepResult::Write(c) if c.jump));
    assert_eq!(d.phase, DodgePhase::Jump(3));
    let mut w = Wavedash::new(1500);
    w.step(ScenarioInput { speed: 1499, ..at(0) });
    assert_eq!(w.phase, WavedashPhase::Accelerate);
}
