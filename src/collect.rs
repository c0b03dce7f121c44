//! Scripted maneuvers used to record how the car behaves: each is a step function from the
//! time since the recording began (and a few readings of the car) to the controls to hold and
//! whether that tick is to be recorded.
use crate::command::Command;
use vstd::prelude::*;

verus! {

/// Speed above which a car can only go faster by boosting.
pub const CAR_NORMAL_SPEED: u32 = 1410;

/// What a recording step decided.
#[derive(Clone, Copy, Debug, PartialEq, Eq, Structural)]
pub enum SimpleScenarioStepResult {
    /// Hold these controls and do not record this tick.
    Ignore(Command),
    /// Hold these controls and record this tick.
    Write(Command),
    /// The recording is over.
    Finish,
}

/// What a scenario reads from the car each tick.
#[derive(Clone, Copy, Debug, PartialEq, Eq, Structural)]
pub struct ScenarioInput {
    /// Ticks since the recording began.
    pub time: u32,
    pub speed: u32,
    pub pitch: i16,
    pub height: i16,
    pub vertical_speed: i16,
}

/// Throttle for accelerating to `speed` (thousandths): full at 1000 units per second and above.
pub open spec fn throttle_for_spec(speed: u32) -> i16 {
    if speed >= 1000 {
        1000
    } else {
        speed as i16
    }
}

pub fn throttle_for(speed: u32) -> (r: i16)
    ensures
        r == throttle_for_spec(speed),
{
    if speed >= 1000 {
        1000
    } else {
        speed as i16
    }
}

/// Full throttle (optionally boosting) from two to five seconds.
pub struct Throttle {
    pub boost: bool,
}

impl Throttle {
    pub fn new(boost: bool) -> (r: Throttle)
        ensures
            r.boost == boost,
    {
        Throttle { boost }
    }

    pub fn name(&self) -> (r: &'static str) {
        if self.boost {
            "boost"
        } else {
            "throttle"
        }
    }

    pub fn step(&mut self, input: ScenarioInput) -> (r: SimpleScenarioStepResult)
        ensures
            input.time < 240 ==> r == SimpleScenarioStepResult::Ignore(Command::neutral_spec()),
            240 <= input.time < 600 ==> r == SimpleScenarioStepResult::Write(
                Command { throttle: 1000, boost: old(self).boost, ..Command::neutral_spec() },
            ),
            input.time >= 600 ==> r == SimpleScenarioStepResult::Finish,
    {
        if input.time < 240 {
            SimpleScenarioStepResult::Ignore(Command::neutral())
        } else if input.time < 600 {
            SimpleScenarioStepResult::Write(Command { throttle: 1000, boost: self.boost, ..Command::neutral() })
        } else {
            SimpleScenarioStepResult::Finish
        }
    }
}

/// Reach top speed with boost, then record coasting for five and a half seconds.
pub struct Coast;

impl Coast {
    pub fn new() -> (r: Coast) {
        Coast
    }

    pub fn name(&self) -> (r: &'static str) {
        "coast"
    }

    pub fn step(&mut self, input: ScenarioInput) -> (r: SimpleScenarioStepResult)
        ensures
            input.time < 180 ==> r == SimpleScenarioStepResult::Ignore(
                Command { throttle: 1000, boost: true, ..Command::neutral_spec() },
            ),
            180 <= input.time < 840 ==> r == SimpleScenarioStepResult::Write(Command::neutral_spec()),
            input.time >= 840 ==> r == SimpleScenarioStepResult::Finish,
    {
        if input.time < 180 {
            SimpleScenarioStepResult::Ignore(Command { throttle: 1000, boost: true, ..Command::neutral() })
        } else if input.time < 840 {
            SimpleScenarioStepResult::Write(Command::neutral())
        } else {
            SimpleScenarioStepResult::Finish
        }
    }
}

/// Hold jump from one second to three and a half.
pub struct Jump;

impl Jump {
    pub fn new() -> (r: Jump) {
        Jump
    }

    pub fn name(&self) -> (r: &'static str) {
        "jump"
    }

    pub fn step(&mut self, input: ScenarioInput) -> (r: SimpleScenarioStepResult)
        ensures
            input.time < 120 ==> r == SimpleScenarioStepResult::Ignore(Command::neutral_spec()),
            120 <= input.time < 420 ==> r == SimpleScenarioStepResult::Write(
                Command { jump: true, ..Command::neutral_spec() },
            ),
            input.time >= 420 ==> r == SimpleScenarioStepResult::Finish,
    {
        if input.time < 120 {
            SimpleScenarioStepResult::Ignore(Command::neutral())
        } else if input.time < 420 {
            SimpleScenarioStepResult::Write(Command { jump: true, ..Command::neutral() })
        } else {
            SimpleScenarioStepResult::Finish
        }
    }
}

/// Accelerate to `start_speed`, then record three seconds of turning at full lock.
pub struct Turn {
    pub start_speed: u32,
    pub start_time: Option<u32>,
}

impl Turn {
    pub fn new(start_speed: u32) -> (r: Turn)
        ensures
            r.start_speed == start_speed,
            r.start_time is None,
    {
        Turn { start_speed, start_time: None }
    }

    pub fn step(&mut self, input: ScenarioInput) -> (r: SimpleScenarioStepResult)
        ensures
            final(self).start_speed == old(self).start_speed,
            final(self).start_time == (match old(self).start_time {
                Some(t) => Some(t),
                None => if input.speed >= old(self).start_speed {
                    Some(input.time)
                } else {
                    None
                },
            }),
            ({
                let throttle = throttle_for_spec(old(self).start_speed);
                let boost = old(self).start_speed > CAR_NORMAL_SPEED;
                match final(self).start_time {
                    None => r == SimpleScenarioStepResult::Ignore(
                        Command { throttle, boost, ..Command::neutral_spec() },
                    ),
                    Some(st) => if input.time < st + 360 {
                        r == SimpleScenarioStepResult::Write(
                            Command { throttle, steer: 1000, boost, ..Command::neutral_spec() },
                        )
                    } else {
                        r == SimpleScenarioStepResult::Finish
                    },
                }
            }),
    {
        if self.start_time.is_none() && input.speed >= self.start_speed {
            self.start_time = Some(input.time);
        }
        let throttle = throttle_for(self.start_speed);
        let boost = self.start_speed > CAR_NORMAL_SPEED;
        match self.start_time {
            None => SimpleScenarioStepResult::Ignore(Command { throttle, boost, ..Command::neutral() }),
            Some(st) => if (input.time as u64) < st as u64 + 360 {
                SimpleScenarioStepResult::Write(Command { throttle, steer: 1000, boost, ..Command::neutral() })
            } else {
                SimpleScenarioStepResult::Finish
            },
        }
    }
}

/// Accelerate to `start_speed`, then record three seconds of a handbrake turn at the given
/// throttle (thousandths).
pub struct PowerslideTurn {
    pub start_speed: u32,
    pub handbrake_throttle: i16,
    pub start_time: Option<u32>,
}

impl PowerslideTurn {
    pub fn new(start_speed: u32, handbrake_throttle: i16) -> (r: PowerslideTurn)
        ensures
            r.start_speed == start_speed,
            r.handbrake_throttle == handbrake_throttle,
            r.start_time is None,
    {
        PowerslideTurn { start_speed, handbrake_throttle, start_time: None }
    }

    pub fn step(&mut self, input: ScenarioInput) -> (r: SimpleScenarioStepResult)
        ensures
            final(self).start_time == (match old(self).start_time {
                Some(t) => Some(t),
                None => if input.speed >= old(self).start_speed {
                    Some(input.time)
                } else {
                    None
                },
            }),
            ({
                match final(self).start_time {
                    None => r == SimpleScenarioStepResult::Ignore(
                        Command {
                            throttle: throttle_for_spec(old(self).start_speed),
                            boost: old(self).start_speed >= CAR_NORMAL_SPEED,
                            ..Command::neutral_spec()
                        },
                    ),
                    Some(st) => if input.time < st + 360 {
                        r == SimpleScenarioStepResult::Write(
                            Command {
                                throttle: old(self).handbrake_throttle,
                                steer: 1000,
                                handbrake: true,
                                ..Command::neutral_spec()
                            },
                        )
                    } else {
                        r == SimpleScenarioStepResult::Finish
                    },
                }
            }),
    {
        if self.start_time.is_none() && input.speed >= self.start_speed {
            self.start_time = Some(input.time);
        }
        match self.start_time {
            None => SimpleScenarioStepResult::Ignore(
                Command {
                    throttle: throttle_for(self.start_speed),
                    boost: self.start_speed >= CAR_NORMAL_SPEED,
                    ..Command::neutral()
                },
            ),
            Some(st) => if (input.time as u64) < st as u64 + 360 {
                SimpleScenarioStepResult::Write(
                    Command {
                        throttle: self.handbrake_throttle,
                        steer: 1000,
                        handbrake: true,
                        ..Command::neutral()
                    },
                )
            } else {
                SimpleScenarioStepResult::Finish
            },
        }
    }
}

/// A rotation axis of the car in the air.
#[derive(Clone, Copy, Debug, PartialEq, Eq, Structural)]
pub enum AirAxis {
    Pitch,
    Yaw,
    Roll,
}

impl AirAxis {
    pub fn all() -> (r: Vec<AirAxis>)
        ensures
            r@ == seq![AirAxis::Pitch, AirAxis::Yaw, AirAxis::Roll],
    {
        let mut v = Vec::new();
        v.push(AirAxis::Pitch);
        v.push(AirAxis::Yaw);
        v.push(AirAxis::Roll);
        proof {
            assert(v@ =~= seq![AirAxis::Pitch, AirAxis::Yaw, AirAxis::Roll]);
        }
        v
    }

    pub fn as_str(&self) -> (r: &'static str) {
        match self {
            AirAxis::Pitch => "pitch",
            AirAxis::Yaw => "yaw",
            AirAxis::Roll => "roll",
        }
    }

    /// The neutral command with this axis deflected to `value`.
    pub open spec fn command_spec(self, value: i16) -> Command {
        match self {
            AirAxis::Pitch => Command { pitch: value, ..Command::neutral_spec() },
            AirAxis::Yaw => Command { yaw: value, ..Command::neutral_spec() },
            AirAxis::Roll => Command { roll: value, ..Command::neutral_spec() },
        }
    }

    pub fn command(&self, value: i16) -> (r: Command)
        ensures
            r == self.command_spec(value),
    {
        match self {
            AirAxis::Pitch => Command { pitch: value, ..Command::neutral() },
            AirAxis::Yaw => Command { yaw: value, ..Command::neutral() },
            AirAxis::Roll => Command { roll: value, ..Command::neutral() },
        }
    }
}

/// Ticks since a scenario's first step (which sets its start time).
fn since_start(start_time: &mut Option<u32>, now: u32) -> (r: u64)
    requires
        *old(start_time) matches Some(t) ==> t <= now,
    ensures
        *final(start_time) == (match *old(start_time) {
            Some(t) => Some(t),
            None => Some(now),
        }),
        r == now - final(start_time)->Some_0,
{
    let st = match *start_time {
        Some(t) => t,
        None => now,
    };
    *start_time = Some(st);
    (now - st) as u64
}

/// Record one second of full rotation about an axis in the air.
pub struct AirRotateAccel {
    pub axis: AirAxis,
    pub start_time: Option<u32>,
}

impl AirRotateAccel {
    pub fn new(axis: AirAxis) -> (r: AirRotateAccel)
        ensures
            r.axis == axis,
            r.start_time is None,
    {
        AirRotateAccel { axis, start_time: None }
    }

    pub fn step(&mut self, input: ScenarioInput) -> (r: SimpleScenarioStepResult)
        requires
            old(self).start_time matches Some(t) ==> t <= input.time,
        ensures
            final(self).start_time matches Some(st) && ({
                let e = input.time - st;
                &&& e < 120 ==> r == SimpleScenarioStepResult::Write(old(self).axis.command_spec(1000))
                &&& e >= 120 ==> r == SimpleScenarioStepResult::Finish
            }),
    {
        let e = since_start(&mut self.start_time, input.time);
        if e < 120 {
            SimpleScenarioStepResult::Write(self.axis.command(1000))
        } else {
            SimpleScenarioStepResult::Finish
        }
    }
}

/// Spin up about an axis for a second, then record two seconds of letting go.
pub struct AirRotateCoast {
    pub axis: AirAxis,
    pub start_time: Option<u32>,
}

impl AirRotateCoast {
    pub fn new(axis: AirAxis) -> (r: AirRotateCoast)
        ensures
            r.axis == axis,
            r.start_time is None,
    {
        AirRotateCoast { axis, start_time: None }
    }

    pub fn step(&mut self, input: ScenarioInput) -> (r: SimpleScenarioStepResult)
        requires
            old(self).start_time matches Some(t) ==> t <= input.time,
        ensures
            final(self).start_time matches Some(st) && ({
                let e = input.time - st;
                &&& e < 120 ==> r == SimpleScenarioStepResult::Ignore(old(self).axis.command_spec(1000))
                &&& 120 <= e < 360 ==> r == SimpleScenarioStepResult::Write(Command::neutral_spec())
                &&& e >= 360 ==> r == SimpleScenarioStepResult::Finish
            }),
    {
        let e = since_start(&mut self.start_time, input.time);
        if e < 120 {
            SimpleScenarioStepResult::Ignore(self.axis.command(1000))
        } else if e < 360 {
            SimpleScenarioStepResult::Write(Command::neutral())
        } else {
            SimpleScenarioStepResult::Finish
        }
    }
}

/// Spin up about an axis for a second, then record a second of full counter-rotation.
pub struct AirRotateCounter {
    pub axis: AirAxis,
    pub start_time: Option<u32>,
}

impl AirRotateCounter {
    pub fn new(axis: AirAxis) -> (r: AirRotateCounter)
        ensures
            r.axis == axis,
            r.start_time is None,
    {
        AirRotateCounter { axis, start_time: None }
    }

    pub fn step(&mut self, input: ScenarioInput) -> (r: SimpleScenarioStepResult)
        requires
            old(self).start_time matches Some(t) ==> t <= input.time,
        ensures
            final(self).start_time matches Some(st) && ({
                let e = input.time - st;
                &&& e < 120 ==> r == SimpleScenarioStepResult::Ignore(old(self).axis.command_spec(1000))
                &&& 120 <= e < 240 ==> r == SimpleScenarioStepResult::Write(
                    old(self).axis.command_spec(-1000i16),
                )
                &&& e >= 240 ==> r == SimpleScenarioStepResult::Finish
            }),
    {
        let e = since_start(&mut self.start_time, input.time);
        if e < 120 {
            SimpleScenarioStepResult::Ignore(self.axis.command(1000))
        } else if e < 240 {
            SimpleScenarioStepResult::Write(self.axis.command(-1000))
        } else {
            SimpleScenarioStepResult::Finish
        }
    }
}

/// Phases of the recorded dodge, each with the tick it began.
#[derive(Clone, Copy, Debug, PartialEq, Eq, Structural)]
pub enum DodgePhase {
    Accelerate,
    Jump(u32),
    Wait(u32),
    Dodge(u32),
    Land(u32),
}

pub open spec fn dodge_rank(p: DodgePhase) -> int {
    match p {
        DodgePhase::Accelerate => 0,
        DodgePhase::Jump(_) => 1,
        DodgePhase::Wait(_) => 2,
        DodgePhase::Dodge(_) => 3,
        DodgePhase::Land(_) => 4,
    }
}

pub open spec fn dodge_started(p: DodgePhase) -> int {
    match p {
        DodgePhase::Accelerate => 0,
        DodgePhase::Jump(t) => t as int,
        DodgePhase::Wait(t) => t as int,
        DodgePhase::Dodge(t) => t as int,
        DodgePhase::Land(t) => t as int,
    }
}

/// Accelerate to `start_speed`, jump, wait, dodge forward (each for a twentieth of a second)
/// and record two seconds of landing.
pub struct Dodge {
    pub start_speed: u32,
    pub phase: DodgePhase,
}

impl Dodge {
    pub fn new(start_speed: u32) -> (r: Dodge)
        ensures
            r.start_speed == start_speed,
            r.phase == DodgePhase::Accelerate,
    {
        Dodge { start_speed, phase: DodgePhase::Accelerate }
    }

    pub fn step(&mut self, input: ScenarioInput) -> (r: SimpleScenarioStepResult)
        requires
            dodge_started(old(self).phase) <= input.time,
        ensures
            dodge_rank(final(self).phase) >= dodge_rank(old(self).phase),
            old(self).phase == DodgePhase::Accelerate && input.speed < old(self).start_speed
                ==> final(self).phase == DodgePhase::Accelerate,
            old(self).phase == DodgePhase::Accelerate && input.speed >= old(self).start_speed
                ==> final(self).phase == DodgePhase::Jump(input.time) && r
                == SimpleScenarioStepResult::Write(Command { jump: true, ..Command::neutral_spec() }),
            dodge_rank(final(self).phase) > dodge_rank(old(self).phase) ==> dodge_started(
                final(self).phase,
            ) == input.time,
            dodge_started(final(self).phase) <= input.time,
            final(self).phase == DodgePhase::Accelerate ==> r == SimpleScenarioStepResult::Write(
                Command {
                    throttle: throttle_for_spec(old(self).start_speed),
                    boost: old(self).start_speed > 2300,
                    ..Command::neutral_spec()
                },
            ),
            final(self).phase is Jump ==> r == SimpleScenarioStepResult::Write(
                Command { jump: true, ..Command::neutral_spec() },
            ),
            final(self).phase is Wait ==> r == SimpleScenarioStepResult::Write(Command::neutral_spec()),
            final(self).phase is Dodge ==> r == SimpleScenarioStepResult::Write(
                Command { pitch: -1000i16, jump: true, ..Command::neutral_spec() },
            ),
            final(self).phase is Land ==> (r is Finish <==> input.time - dodge_started(final(self).phase)
                >= 240),
    {
        let now = input.time;
        if self.phase == DodgePhase::Accelerate {
            if input.speed >= self.start_speed {
                self.phase = DodgePhase::Jump(now);
            } else {
                return SimpleScenarioStepResult::Write(
                    Command {
                        throttle: throttle_for(self.start_speed),
                        boost: self.start_speed > 2300,
                        ..Command::neutral()
                    },
                );
            }
        }
        if let DodgePhase::Jump(start) = self.phase {
            if now - start >= 6 {
                self.phase = DodgePhase::Wait(now);
            } else {
                return SimpleScenarioStepResult::Write(Command { jump: true, ..Command::neutral() });
            }
        }
        if let DodgePhase::Wait(start) = self.phase {
            if now - start >= 6 {
                self.phase = DodgePhase::Dodge(now);
            } else {
                return SimpleScenarioStepResult::Write(Command::neutral());
            }
        }
        if let DodgePhase::Dodge(start) = self.phase {
            if now - start >= 6 {
                self.phase = DodgePhase::Land(now);
            } else {
                return SimpleScenarioStepResult::Write(
                    Command { pitch: -1000, jump: true, ..Command::neutral() },
                );
            }
        }
        match self.phase {
            DodgePhase::Land(start) => if now - start >= 240 {
                SimpleScenarioStepResult::Finish
            } else {
                SimpleScenarioStepResult::Write(Command::neutral())
            },
            _ => SimpleScenarioStepResult::Finish,
        }
    }
}

/// Phases of the recorded wavedash, each with the tick it began.
#[derive(Clone, Copy, Debug, PartialEq, Eq, Structural)]
pub enum WavedashPhase {
    Accelerate,
    Jump(u32),
    Adjust(u32),
    Wait(u32),
    Dodge(u32),
    Land(u32),
}

pub open spec fn wavedash_rank(p: WavedashPhase) -> int {
    match p {
        WavedashPhase::Accelerate => 0,
        WavedashPhase::Jump(_) => 1,
        WavedashPhase::Adjust(_) => 2,
        WavedashPhase::Wait(_) => 3,
        WavedashPhase::Dodge(_) => 4,
        WavedashPhase::Land(_) => 5,
    }
}

pub open spec fn wavedash_started(p: WavedashPhase) -> int {
    match p {
        WavedashPhase::Accelerate => 0,
        WavedashPhase::Jump(t) => t as int,
        WavedashPhase::Adjust(t) => t as int,
        WavedashPhase::Wait(t) => t as int,
        WavedashPhase::Dodge(t) => t as int,
        WavedashPhase::Land(t) => t as int,
    }
}

/// Accelerate to `start_speed` (unrecorded), then record a wavedash: jump leaning back, wait
/// until just above the ground, dodge forward into it, and two seconds of handbrake landing.
pub struct Wavedash {
    pub start_speed: u32,
    pub phase: WavedashPhase,
    pub starting_pitch: Option<i16>,
}

impl Wavedash {
    pub fn new(start_speed: u32) -> (r: Wavedash)
        ensures
            r.start_speed == start_speed,
            r.phase == WavedashPhase::Accelerate,
            r.starting_pitch is None,
    {
        Wavedash { start_speed, phase: WavedashPhase::Accelerate, starting_pitch: None }
    }

    pub fn step(&mut self, input: ScenarioInput) -> (r: SimpleScenarioStepResult)
        requires
            wavedash_started(old(self).phase) <= input.time,
        ensures
            wavedash_rank(final(self).phase) >= wavedash_rank(old(self).phase),
            old(self).phase == WavedashPhase::Accelerate && input.speed < old(self).start_speed
                ==> final(self).phase == WavedashPhase::Accelerate,
            old(self).phase == WavedashPhase::Accelerate && input.speed >= old(self).start_speed
                ==> final(self).phase == WavedashPhase::Jump(input.time) && r
                == SimpleScenarioStepResult::Write(
                Command { jump: true, pitch: 1000, throttle: 1000, ..Command::neutral_spec() },
            ),
            wavedash_rank(final(self).phase) > wavedash_rank(old(self).phase) ==> wavedash_started(
                final(self).phase,
            ) == input.time,
            wavedash_started(final(self).phase) <= input.time,
            final(self).starting_pitch == (match old(self).starting_pitch {
                Some(p) => Some(p),
                None => Some(input.pitch),
            }),
            final(self).phase == WavedashPhase::Accelerate ==> r == SimpleScenarioStepResult::Ignore(
                Command {
                    throttle: throttle_for_spec(old(self).start_speed),
                    boost: old(self).start_speed > 1000,
                    ..Command::neutral_spec()
                },
            ),
            final(self).phase is Jump ==> r == SimpleScenarioStepResult::Write(
                Command { jump: true, pitch: 1000, throttle: 1000, ..Command::neutral_spec() },
            ),
            final(self).phase is Adjust ==> r == SimpleScenarioStepResult::Write(
                Command { pitch: 1000, throttle: 1000, ..Command::neutral_spec() },
            ),
            final(self).phase is Wait ==> r == SimpleScenarioStepResult::Write(
                Command { throttle: 1000, ..Command::neutral_spec() },
            ),
            final(self).phase is Dodge ==> r == SimpleScenarioStepResult::Write(
                Command {
                    pitch: -1000i16,
                    jump: true,
                    handbrake: true,
                    throttle: 1000,
                    ..Command::neutral_spec()
                },
            ),
            final(self).phase is Land ==> (r is Finish <==> input.time - wavedash_started(
                final(self).phase,
            ) >= 240) && (r is Write <==> !(r is Finish)),
    {
        let now = input.time;
        let starting_pitch = match self.starting_pitch {
            Some(p) => p,
            None => input.pitch,
        };
        self.starting_pitch = Some(starting_pitch);
        let pitch_delta = input.pitch as i32 - starting_pitch as i32;
        if self.phase == WavedashPhase::Accelerate {
            if input.speed >= self.start_speed {
                self.phase = WavedashPhase::Jump(now);
            } else {
                return SimpleScenarioStepResult::Ignore(
                    Command {
                        throttle: throttle_for(self.start_speed),
                        boost: self.start_speed > 1000,
                        ..Command::neutral()
                    },
                );
            }
        }
        if let WavedashPhase::Jump(start) = self.phase {
            if now - start >= 2 {
                self.phase = WavedashPhase::Adjust(now);
            } else {
                return SimpleScenarioStepResult::Write(
                    Command { jump: true, pitch: 1000, throttle: 1000, ..Command::neutral() },
                );
            }
        }
        if let WavedashPhase::Adjust(_) = self.phase {
            if pitch_delta >= 9 {
                self.phase = WavedashPhase::Wait(now);
            } else {
                return SimpleScenarioStepResult::Write(
                    Command { pitch: 1000, throttle: 1000, ..Command::neutral() },
                );
            }
        }
        if let WavedashPhase::Wait(_) = self.phase {
            if input.height <= 39 && input.vertical_speed < 0 {
                self.phase = WavedashPhase::Dodge(now);
            } else {
                return SimpleScenarioStepResult::Write(Command { throttle: 1000, ..Command::neutral() });
            }
        }
        if let WavedashPhase::Dodge(start) = self.phase {
            if now - start >= 2 {
                self.phase = WavedashPhase::Land(now);
            } else {
                return SimpleScenarioStepResult::Write(
                    Command { pitch: -1000, jump: true, handbrake: true, throttle: 1000, ..Command::neutral() },
                );
            }
        }
        match self.phase {
            WavedashPhase::Land(start) => if now - start >= 240 {
                SimpleScenarioStepResult::Finish
            } else {
                SimpleScenarioStepResult::Write(Command { handbrake: true, ..Command::neutral() })
            },
            _ => SimpleScenarioStepResult::Finish,
        }
    }
}

} // verus!
