use crate::command::Command;
use crate::engine::{Action, Behavior, Priority, Resume};
use crate::geometry::{dot2, dot2_spec, sub2, sub2_spec, within_angle, within_angle_spec, Vec2};
use crate::car1d::{Car1D, DODGE_JUMP_TICKS, MAX_SIM_TICKS};
use crate::routing::{len_spec, length, vec2_int, Segment, StraightMode};
use crate::scenario::{len3_spec, CarInfo, Scenario};
use vstd::prelude::*;

verus! {

/// What a behavior sees each tick: the game clock (in ticks) and the tick's scenario.
pub struct Context {
    pub time: u32,
    pub scenario: Scenario,
}

impl Context {
    pub fn me(&self) -> (r: &CarInfo)
        ensures
            *r == self.scenario.me_spec(),
    {
        self.scenario.me()
    }
}

/// Ticks the jump button is held.
pub const JUMP_INPUT_TICKS: u32 = 2;

/// Ticks expected for the pitch to start changing.
pub const PITCH_ADJUSTMENT_TICKS: u32 = 8;

/// Ticks expected between leaning back and being low enough to dodge.
pub const DODGE_WAIT_TICKS: u32 = 98;

/// Ticks of handbrake after the dodge, to keep speed and settle.
pub const FOLLOW_THROUGH_TICKS: u32 = 12;

/// Pitch change, in milliradians, that shows the car has leaned back (half a degree).
pub const PITCH_CHANGE_MRAD: i16 = 9;

/// Height below which the car may dodge into the ground.
pub const DODGE_HEIGHT: i16 = 39;

#[derive(Clone, Copy, Debug, PartialEq, Eq, Structural)]
pub enum WavedashPhase {
    Jump,
    Adjust,
    Wait,
    Dodge,
    FollowThrough,
    Finished,
}

pub open spec fn phase_rank(p: WavedashPhase) -> int {
    match p {
        WavedashPhase::Jump => 0,
        WavedashPhase::Adjust => 1,
        WavedashPhase::Wait => 2,
        WavedashPhase::Dodge => 3,
        WavedashPhase::FollowThrough => 4,
        WavedashPhase::Finished => 5,
    }
}

/// What a wavedash reads from the world each tick.
#[derive(Clone, Copy, Debug, PartialEq, Eq, Structural)]
pub struct WavedashInput {
    pub time: u32,
    pub pitch: i16,
    pub on_ground: bool,
    pub height: i16,
    pub vertical_speed: i16,
    pub double_jumped: bool,
}

/// What one wavedash step decided.
#[derive(Clone, Copy, Debug, PartialEq, Eq, Structural)]
pub enum WavedashOutcome {
    Yield(Command),
    Return,
    Abort,
}

/// The controls held in each phase.
pub open spec fn phase_command(p: WavedashPhase, throttle: i16) -> Command {
    let n = Command::neutral_spec();
    match p {
        WavedashPhase::Jump => Command { jump: true, pitch: 1000, throttle, ..n },
        WavedashPhase::Adjust => Command { pitch: 1000, throttle, ..n },
        WavedashPhase::Wait => Command { throttle, ..n },
        WavedashPhase::Dodge => Command { pitch: -1000i16, jump: true, handbrake: true, throttle, ..n },
        _ => Command { handbrake: true, ..n },
    }
}

/// The rest of one wavedash step from phase `w.phase` on (its start time set), with the pitch
/// changed by `delta` since the maneuver began. Each phase either passes to the next, which
/// then runs at once timed from now, or ends the step:
/// - Jump: after `JUMP_INPUT_TICKS` on to Adjust; before that, abort if the wheels left the
///   ground, else hold jump.
/// - Adjust: once the pitch rose by `PITCH_CHANGE_MRAD` on to Wait; else abort after twice
///   `PITCH_ADJUSTMENT_TICKS`, else lean back.
/// - Wait: once at most `DODGE_HEIGHT` high and falling on to Dodge; else abort after 1.25
///   times `DODGE_WAIT_TICKS` or if the double jump is used up, else keep the throttle.
/// - Dodge: after `JUMP_INPUT_TICKS` on to FollowThrough; before that, abort on ground contact,
///   else dodge forward.
/// - FollowThrough: after `FOLLOW_THROUGH_TICKS` finish and return, else slide.
/// - Finished: return.
pub open spec fn wavedash_from(w: Wavedash, input: WavedashInput, delta: int) -> (Wavedash, WavedashOutcome)
    decreases 5 - phase_rank(w.phase),
{
    let now = input.time;
    let elapsed = now - w.phase_start_time->Some_0;
    match w.phase {
        WavedashPhase::Jump => if elapsed >= JUMP_INPUT_TICKS {
            wavedash_from(
                Wavedash { phase: WavedashPhase::Adjust, phase_start_time: Some(now), ..w },
                input,
                delta,
            )
        } else if !input.on_ground {
            (w, WavedashOutcome::Abort)
        } else {
            (w, WavedashOutcome::Yield(phase_command(WavedashPhase::Jump, w.throttle)))
        },
        WavedashPhase::Adjust => if delta >= PITCH_CHANGE_MRAD {
            wavedash_from(
                Wavedash { phase: WavedashPhase::Wait, phase_start_time: Some(now), ..w },
                input,
                delta,
            )
        } else if elapsed > PITCH_ADJUSTMENT_TICKS * 2 {
            (w, WavedashOutcome::Abort)
        } else {
            (w, WavedashOutcome::Yield(phase_command(WavedashPhase::Adjust, w.throttle)))
        },
        WavedashPhase::Wait => if input.height <= DODGE_HEIGHT && input.vertical_speed < 0 {
            wavedash_from(
                Wavedash { phase: WavedashPhase::Dodge, phase_start_time: Some(now), ..w },
                input,
                delta,
            )
        } else if elapsed > DODGE_WAIT_TICKS * 5 / 4 {
            (w, WavedashOutcome::Abort)
        } else if input.double_jumped {
            (w, WavedashOutcome::Abort)
        } else {
            (w, WavedashOutcome::Yield(phase_command(WavedashPhase::Wait, w.throttle)))
        },
        WavedashPhase::Dodge => if elapsed >= JUMP_INPUT_TICKS {
            wavedash_from(
                Wavedash { phase: WavedashPhase::FollowThrough, phase_start_time: Some(now), ..w },
                input,
                delta,
            )
        } else if input.on_ground {
            (w, WavedashOutcome::Abort)
        } else {
            (w, WavedashOutcome::Yield(phase_command(WavedashPhase::Dodge, w.throttle)))
        },
        WavedashPhase::FollowThrough => if elapsed >= FOLLOW_THROUGH_TICKS {
            (Wavedash { phase: WavedashPhase::Finished, ..w }, WavedashOutcome::Return)
        } else {
            (w, WavedashOutcome::Yield(phase_command(WavedashPhase::FollowThrough, w.throttle)))
        },
        WavedashPhase::Finished => (w, WavedashOutcome::Return),
    }
}

/// One wavedash step: on the first tick the phase start and the starting pitch are recorded,
/// then `wavedash_from` runs.
pub open spec fn wavedash_step_spec(w: Wavedash, input: WavedashInput) -> (Wavedash, WavedashOutcome) {
    let sp = match w.starting_pitch {
        Some(p) => p,
        None => input.pitch,
    };
    let w0 = Wavedash {
        phase_start_time: Some(
            match w.phase_start_time {
                Some(t) => t,
                None => input.time,
            },
        ),
        starting_pitch: Some(sp),
        ..w
    };
    wavedash_from(w0, input, input.pitch - sp)
}

/// Jump, lean back, wait until just above the ground, then dodge forward into it and slide
/// on the handbrake: converts landing speed into forward speed. Each phase is timed from the
/// tick it was entered.
#[derive(Clone, Copy, Debug, PartialEq, Eq, Structural)]
pub struct Wavedash {
    pub phase: WavedashPhase,
    pub phase_start_time: Option<u32>,
    pub starting_pitch: Option<i16>,
    pub throttle: i16,
}

impl Wavedash {
    pub fn new() -> (r: Wavedash)
        ensures
            r.phase == WavedashPhase::Jump,
            r.phase_start_time is None,
            r.starting_pitch is None,
            r.throttle == 1000,
    {
        Wavedash {
            phase: WavedashPhase::Jump,
            phase_start_time: None,
            starting_pitch: None,
            throttle: 1000,
        }
    }

    /// Expected ticks from the jump to the end of the follow-through.
    pub fn estimated_duration() -> (r: u32)
        ensures
            r == 2 * JUMP_INPUT_TICKS + PITCH_ADJUSTMENT_TICKS + DODGE_WAIT_TICKS
                + FOLLOW_THROUGH_TICKS,
    {
        JUMP_INPUT_TICKS + PITCH_ADJUSTMENT_TICKS + DODGE_WAIT_TICKS + JUMP_INPUT_TICKS
            + FOLLOW_THROUGH_TICKS
    }

    /// One tick of the maneuver (see `wavedash_step_spec`).
    pub fn step(&mut self, input: WavedashInput) -> (r: WavedashOutcome)
        requires
            old(self).phase_start_time matches Some(t) ==> t <= input.time,
            -1000 <= old(self).throttle <= 1000,
        ensures
            (*final(self), r) == wavedash_step_spec(*old(self), input),
            phase_rank(final(self).phase) >= phase_rank(old(self).phase),
    {
        let now = input.time;
        if self.phase_start_time.is_none() {
            self.phase_start_time = Some(now);
        }
        if self.starting_pitch.is_none() {
            self.starting_pitch = Some(input.pitch);
        }
        let starting_pitch = match self.starting_pitch {
            Some(p) => p,
            None => input.pitch,
        };
        let pitch_delta = input.pitch as i32 - starting_pitch as i32;
        let ghost goal = wavedash_step_spec(*old(self), input);
        assert(goal == wavedash_from(*self, input, pitch_delta as int));
        if self.phase == WavedashPhase::Jump {
            if now - self.elapsed_base(now) >= JUMP_INPUT_TICKS {
                self.phase = WavedashPhase::Adjust;
                self.phase_start_time = Some(now);
            } else if !input.on_ground {
                return WavedashOutcome::Abort;
            } else {
                return WavedashOutcome::Yield(
                    Command { jump: true, pitch: 1000, throttle: self.throttle, ..Command::neutral() },
                );
            }
        }
        assert(goal == wavedash_from(*self, input, pitch_delta as int));
        if self.phase == WavedashPhase::Adjust {
            if pitch_delta >= PITCH_CHANGE_MRAD as i32 {
                self.phase = WavedashPhase::Wait;
                self.phase_start_time = Some(now);
            } else if now - self.elapsed_base(now) > PITCH_ADJUSTMENT_TICKS * 2 {
                return WavedashOutcome::Abort;
            } else {
                return WavedashOutcome::Yield(
                    Command { pitch: 1000, throttle: self.throttle, ..Command::neutral() },
                );
            }
        }
        assert(goal == wavedash_from(*self, input, pitch_delta as int));
        if self.phase == WavedashPhase::Wait {
            if input.height <= DODGE_HEIGHT && input.vertical_speed < 0 {
                self.phase = WavedashPhase::Dodge;
                self.phase_start_time = Some(now);
            } else if now - self.elapsed_base(now) > DODGE_WAIT_TICKS * 5 / 4 {
                return WavedashOutcome::Abort;
            } else if input.double_jumped {
                return WavedashOutcome::Abort;
            } else {
                return WavedashOutcome::Yield(Command { throttle: self.throttle, ..Command::neutral() });
            }
        }
        assert(goal == wavedash_from(*self, input, pitch_delta as int));
        if self.phase == WavedashPhase::Dodge {
            if now - self.elapsed_base(now) >= JUMP_INPUT_TICKS {
                self.phase = WavedashPhase::FollowThrough;
                self.phase_start_time = Some(now);
            } else if input.on_ground {
                return WavedashOutcome::Abort;
            } else {
                return WavedashOutcome::Yield(
                    Command {
                        pitch: -1000,
                        jump: true,
                        handbrake: true,
                        throttle: self.throttle,
                        ..Command::neutral()
                    },
                );
            }
        }
        assert(goal == wavedash_from(*self, input, pitch_delta as int));
        if self.phase == WavedashPhase::FollowThrough {
            if now - self.elapsed_base(now) >= FOLLOW_THROUGH_TICKS {
                self.phase = WavedashPhase::Finished;
            } else {
                return WavedashOutcome::Yield(Command { handbrake: true, ..Command::neutral() });
            }
        }
        WavedashOutcome::Return
    }

    /// When the current phase began (never after `now`).
    fn elapsed_base(&self, now: u32) -> (r: u32)
        requires
            self.phase_start_time matches Some(t) ==> t <= now,
        ensures
            r <= now,
            r == (match self.phase_start_time {
                Some(t) => t,
                None => now,
            }),
    {
        match self.phase_start_time {
            Some(t) => t,
            None => now,
        }
    }
}

/// Speed above which boosting gains too little to be worth it.
pub const CAR_ALMOST_MAX_SPEED: i64 = 2250;

/// A steering command towards `d` for a car facing `forward`: twice the sine of the angle
/// (so full lock from 30 degrees on), and full lock when the target is behind.
pub open spec fn steer_spec(forward: (int, int), d: (int, int)) -> int {
    let cross = forward.0 * d.1 - forward.1 * d.0;
    let lf = len_spec(forward);
    let ld = len_spec(d);
    if lf == 0 || ld == 0 {
        0
    } else if dot2_spec(forward, d) <= 0 {
        if cross >= 0 {
            1000
        } else {
            -1000
        }
    } else if cross >= 0 {
        if cross * 2000 / (lf * ld) > 1000 {
            1000
        } else {
            cross * 2000 / (lf * ld)
        }
    } else {
        if (-cross) * 2000 / (lf * ld) > 1000 {
            -1000
        } else {
            -((-cross) * 2000 / (lf * ld))
        }
    }
}

pub fn steer_towards(forward: Vec2, d: (i64, i64)) -> (r: i16)
    requires
        -65536 <= d.0 <= 65536,
        -65536 <= d.1 <= 65536,
    ensures
        r as int == steer_spec(vec2_int(forward), (d.0 as int, d.1 as int)),
        -1000 <= r <= 1000,
{
    let f = (forward.x as i64, forward.y as i64);
    assert(-0x1_0000_0000 <= f.0 * d.1 <= 0x1_0000_0000 && -0x1_0000_0000 <= f.1 * d.0 <= 0x1_0000_0000)
        by (nonlinear_arith)
        requires
            -32768 <= f.0 <= 32767,
            -32768 <= f.1 <= 32767,
            -65536 <= d.0 <= 65536,
            -65536 <= d.1 <= 65536,
    ;
    let cross = f.0 * d.1 - f.1 * d.0;
    let lf = length(f.0, f.1) as i64;
    let ld = length(d.0, d.1) as i64;
    if lf == 0 || ld == 0 {
        return 0;
    }
    if dot2(f, d) <= 0 {
        return if cross >= 0 {
            1000
        } else {
            -1000
        };
    }
    assert(0 < lf * ld <= 92682 * 92682) by (nonlinear_arith)
        requires
            0 < lf <= 92682,
            0 < ld <= 92682,
    ;
    let m = lf * ld;
    if cross >= 0 {
        let q = cross * 2000 / m;
        if q > 1000 {
            1000
        } else {
            q as i16
        }
    } else {
        let q = (-cross) * 2000 / m;
        if q > 1000 {
            -1000
        } else {
            -(q as i16)
        }
    }
}

/// What `BlitzToLocation` does this tick.
#[derive(Clone, Copy, Debug, PartialEq, Eq, Structural)]
pub enum BlitzChoice {
    /// Full throttle and boost, steering so.
    Boost(i16),
    /// Hand over to a wavedash.
    Wavedash,
    /// Full throttle, steering so.
    Drive(i16),
}

pub open spec fn blitz_choice_spec(me: CarInfo, target: Vec2) -> BlitzChoice {
    let d = sub2_spec(target, me.loc.to_2d_spec());
    let distance = len_spec(d);
    let speed = len3_spec(me.vel);
    let f = vec2_int(me.forward);
    let steer = steer_spec(f, d);
    let wavedash_speed = if speed + 500 >= 2300 {
        speed + 500
    } else {
        2300
    };
    let wavedash_dist = wavedash_speed * 122 / 120;
    if distance > 1000 && me.on_ground && within_angle_spec(f, d, 707) && (speed < 1500 || (2000
        <= speed && speed < CAR_ALMOST_MAX_SPEED)) && me.boost > 0 {
        BlitzChoice::Boost(steer as i16)
    } else if me.on_ground && me.pitch < 17 && ((900 <= speed || me.boost == 0) && speed < 2200) && ((
    distance > wavedash_dist && within_angle_spec(f, d, 991)) || (distance * 2 > wavedash_dist * 3
        && within_angle_spec(f, d, 924))) {
        BlitzChoice::Wavedash
    } else {
        BlitzChoice::Drive(steer as i16)
    }
}

/// Drive to a spot as fast as possible: boost while that helps, wavedash when lined up and
/// far enough away, otherwise full throttle.
pub fn blitz_choice(me: &CarInfo, target: Vec2) -> (r: BlitzChoice)
    ensures
        r == blitz_choice_spec(*me, target),
{
    let d = sub2(target, me.loc.to_2d());
    let distance = length(d.0, d.1) as i64;
    let speed = crate::scenario::length3(me.vel) as i64;
    let f = (me.forward.x as i64, me.forward.y as i64);
    let steer = steer_towards(me.forward, d);
    let wavedash_speed = if speed + 500 >= 2300 {
        speed + 500
    } else {
        2300
    };
    let wavedash_dist = wavedash_speed * 122 / 120;
    if distance > 1000 && me.on_ground && within_angle(f, d, 707) && (speed < 1500 || (2000 <= speed
        && speed < CAR_ALMOST_MAX_SPEED)) && me.boost > 0 {
        BlitzChoice::Boost(steer)
    } else if me.on_ground && me.pitch < 17 && ((900 <= speed || me.boost == 0) && speed < 2200) && ((
    distance > wavedash_dist && within_angle(f, d, 991)) || (distance * 2 > wavedash_dist * 3
        && within_angle(f, d, 924))) {
        BlitzChoice::Wavedash
    } else {
        BlitzChoice::Drive(steer)
    }
}

/// Idles: sends the neutral command forever.
#[derive(Clone, Copy, Debug, PartialEq, Eq, Structural)]
pub struct NullBehavior;

impl NullBehavior {
    pub fn new() -> (r: NullBehavior) {
        NullBehavior
    }
}

impl<C> Behavior<C> for NullBehavior {
    open spec fn priority_spec(&self) -> Priority {
        Priority::Idle
    }

    open spec fn name_spec(&self) -> Seq<char> {
        "NullBehavior"@
    }

    /// Always yields the neutral command and stays as it is.
    open spec fn execute_spec(self, ctx: C, resume: Resume, next: Self, r: Action<Self>) -> bool {
        next == self && r == Action::<NullBehavior>::Yield(Command::neutral_spec())
    }

    fn name(&self) -> (r: &'static str) {
        proof {
            reveal_strlit("NullBehavior");
        }
        "NullBehavior"
    }

    fn priority(&self) -> (r: Priority) {
        Priority::Idle
    }

    fn execute(&mut self, ctx: &mut C, resume: Resume) -> (r: Action<NullBehavior>) {
        Action::Yield(Command::neutral())
    }
}

/// The tasks this library knows how to run.
pub enum Task {
    Null(NullBehavior),
    /// Run the child until it finishes, then idle forever.
    Once(Option<Box<Task>>),
    /// Idle until the game clock reaches the time, then run the child once.
    Delay(u32, Option<Box<Task>>),
    /// Send one command for a number of ticks, timed from the first tick it runs.
    Yielder(Yielder),
    /// Run children one after another, at the given priority; abort if one aborts.
    Chain(Priority, Vec<Task>),
    Wavedash(Wavedash),
    BlitzToLocation(Vec2),
    FollowRoute(FollowRoute),
    /// Arrive at the spot at the game time (in ticks).
    GroundAccelToLoc(Vec2, u32),
    GetToFlatGround,
}

/// Drives a planned route, segment by segment, each for its planned duration.
pub struct FollowRoute {
    pub segments: Vec<Segment>,
    pub index: usize,
    pub segment_start: Option<u32>,
}

impl FollowRoute {
    /// One tick of driving the route (see `follow_spec`).
    pub fn advance(&mut self, now: u32, me: &CarInfo) -> (r: Option<Command>)
        ensures
            final(self).segments@ == old(self).segments@,
            (final(self).index as int, final(self).segment_start, r) == follow_spec(
                old(self).segments@,
                old(self).index as int,
                old(self).segment_start,
                now,
                *me,
            ),
    {
        let ghost goal = follow_spec(self.segments@, self.index as int, self.segment_start, now, *me);
        let ghost segs = self.segments@;
        while self.index < self.segments.len()
            invariant
                self.segments@ == segs,
                segs == old(self).segments@,
                goal == follow_spec(
                    old(self).segments@,
                    old(self).index as int,
                    old(self).segment_start,
                    now,
                    *me,
                ),
                follow_spec(segs, self.index as int, self.segment_start, now, *me) == goal,
            decreases segs.len() - self.index,
        {
            let start = match self.segment_start {
                Some(t) => t,
                None => now,
            };
            self.segment_start = Some(start);
            let seg = self.segments[self.index];
            let elapsed = if now >= start {
                now - start
            } else {
                0
            };
            if elapsed < seg.duration() {
                assert(goal == (self.index as int, Some(start), Some(segment_command_spec(seg, elapsed as int, *me))));
                return Some(segment_command(&seg, elapsed, me));
            }
            self.index = self.index + 1;
            self.segment_start = Some(now);
        }
        None
    }

    pub fn new(segments: Vec<Segment>) -> (r: FollowRoute)
        ensures
            r.segments@ == segments@,
            r.index == 0,
            r.segment_start is None,
    {
        FollowRoute { segments, index: 0, segment_start: None }
    }
}

/// The controls for `elapsed` ticks into `seg`, for a car `me`.
pub open spec fn segment_command_spec(seg: Segment, elapsed: int, me: CarInfo) -> Command {
    let n = Command::neutral_spec();
    match seg {
        Segment::Straight(s) => Command {
            throttle: 1000,
            steer: steer_spec(vec2_int(me.forward), sub2_spec(s.target_loc, me.loc.to_2d_spec())) as i16,
            boost: s.mode == StraightMode::Asap,
            ..n
        },
        Segment::Dodge(_) => if elapsed < 2 {
            Command { jump: true, throttle: 1000, ..n }
        } else if DODGE_JUMP_TICKS <= elapsed < DODGE_JUMP_TICKS + 2 {
            Command { jump: true, pitch: -1000i16, throttle: 1000, ..n }
        } else {
            Command { throttle: 1000, ..n }
        },
    }
}

pub fn segment_command(seg: &Segment, elapsed: u32, me: &CarInfo) -> (r: Command)
    ensures
        r == segment_command_spec(*seg, elapsed as int, *me),
{
    match seg {
        Segment::Straight(s) => {
            let d = sub2(s.target_loc, me.loc.to_2d());
            Command {
                throttle: 1000,
                steer: steer_towards(me.forward, d),
                boost: s.mode == StraightMode::Asap,
                ..Command::neutral()
            }
        },
        Segment::Dodge(_) => {
            if elapsed < 2 {
                Command { jump: true, throttle: 1000, ..Command::neutral() }
            } else if DODGE_JUMP_TICKS <= elapsed && elapsed < DODGE_JUMP_TICKS + 2 {
                Command { jump: true, pitch: -1000, throttle: 1000, ..Command::neutral() }
            } else {
                Command { throttle: 1000, ..Command::neutral() }
            }
        },
    }
}

/// A task that drives exactly the given segment, for trying out a segment on its own.
pub fn segment_plan_tester(plan: Segment) -> (r: Task)
    ensures
        r matches Task::FollowRoute(f) && f.segments@ == seq![plan] && f.index == 0
            && f.segment_start is None,
{
    let mut segments = Vec::new();
    segments.push(plan);
    Task::FollowRoute(FollowRoute::new(segments))
}

#[derive(Clone, Copy, Debug, PartialEq, Eq, Structural)]
pub struct Yielder {
    pub duration: u32,
    pub command: Command,
    pub start: Option<u32>,
}

impl Yielder {
    pub fn new(duration: u32, command: Command) -> (r: Yielder)
        ensures
            r == (Yielder { duration, command, start: None }),
    {
        Yielder { duration, command, start: None }
    }
}

/// Where a route follower is after this tick: it skips every segment whose planned duration
/// has run out (the next one timed from now) and drives the current one. Returns the segment
/// index, its start time, and the command (`None` once the route is done).
pub open spec fn follow_spec(segs: Seq<Segment>, index: int, start: Option<u32>, now: u32, me: CarInfo) -> (
    int,
    Option<u32>,
    Option<Command>,
)
    decreases segs.len() - index,
{
    if index < 0 || index >= segs.len() {
        (index, start, None)
    } else {
        let st = match start {
            Some(t) => t,
            None => now,
        };
        let elapsed = if now >= st {
            now - st
        } else {
            0
        };
        if elapsed < segs[index].duration_spec() {
            (index, Some(st), Some(segment_command_spec(segs[index], elapsed, me)))
        } else {
            follow_spec(segs, index + 1, Some(now), now, me)
        }
    }
}

/// What the wavedash task reads from the world.
pub open spec fn wavedash_input_spec(ctx: Context) -> WavedashInput {
    let me = ctx.scenario.me_spec();
    WavedashInput {
        time: ctx.time,
        pitch: me.pitch,
        on_ground: me.on_ground,
        height: me.loc.z,
        vertical_speed: me.vel.z,
        double_jumped: me.double_jumped,
    }
}

pub open spec fn outcome_action(o: WavedashOutcome) -> Action<Task> {
    match o {
        WavedashOutcome::Yield(c) => Action::Yield(c),
        WavedashOutcome::Return => Action::Return,
        WavedashOutcome::Abort => Action::Abort,
    }
}

pub open spec fn new_wavedash_spec() -> Wavedash {
    Wavedash {
        phase: WavedashPhase::Jump,
        phase_start_time: None,
        starting_pitch: None,
        throttle: 1000,
    }
}

/// The wavedash as a task: once finished it returns; otherwise one `wavedash_step_spec` step on
/// what the context shows, aborting on an inconsistent clock or an out-of-range throttle.
pub open spec fn wavedash_task_spec(w: Wavedash, ctx: Context, next: Wavedash, r: Action<Task>) -> bool {
    if w.phase == WavedashPhase::Finished {
        next == w && r == Action::<Task>::Return
    } else if (w.phase_start_time matches Some(t) && t > ctx.time) || w.throttle < -1000 || w.throttle > 1000 {
        next == w && r == Action::<Task>::Abort
    } else {
        let (w2, o) = wavedash_step_spec(w, wavedash_input_spec(ctx));
        next == w2 && r == outcome_action(o)
    }
}

/// Driving to a spot as a task: per `blitz_choice_spec`; a wavedash becomes a tail call to a
/// chain of a short settling pause and a wavedash.
pub open spec fn blitz_task_spec(me: CarInfo, target: Vec2, r: Action<Task>) -> bool {
    let n = Command::neutral_spec();
    match blitz_choice_spec(me, target) {
        BlitzChoice::Boost(steer) => r == Action::<Task>::Yield(
            Command { throttle: 1000, steer, boost: true, ..n },
        ),
        BlitzChoice::Drive(steer) => r == Action::<Task>::Yield(Command { throttle: 1000, steer, ..n }),
        BlitzChoice::Wavedash => {
            &&& r is TailCall
            &&& r->TailCall_0 is Chain
            &&& r->TailCall_0->Chain_0 == Priority::Idle
            &&& r->TailCall_0->Chain_1@ == seq![
                Task::Yielder(Yielder { duration: 6, command: n, start: None }),
                Task::Wavedash(new_wavedash_spec()),
            ]
        },
    }
}

impl Wavedash {
    /// One tick of the wavedash task (see `wavedash_task_spec`).
    pub fn execute_old(&mut self, ctx: &Context) -> (r: Action<Task>)
        ensures
            wavedash_task_spec(*old(self), *ctx, *final(self), r),
    {
        let me = ctx.me();
        let input = WavedashInput {
            time: ctx.time,
            pitch: me.pitch,
            on_ground: me.on_ground,
            height: me.loc.z,
            vertical_speed: me.vel.z,
            double_jumped: me.double_jumped,
        };
        if self.phase == WavedashPhase::Finished {
            return Action::Return;
        }
        let ok = match self.phase_start_time {
            Some(t) => t <= ctx.time,
            None => true,
        };
        if !ok || self.throttle < -1000 || self.throttle > 1000 {
            return Action::Abort;
        }
        match self.step(input) {
            WavedashOutcome::Yield(c) => Action::Yield(c),
            WavedashOutcome::Return => Action::Return,
            WavedashOutcome::Abort => Action::Abort,
        }
    }
}

/// Drive to a spot as fast as possible.
#[derive(Clone, Copy, Debug, PartialEq, Eq, Structural)]
pub struct BlitzToLocation {
    pub target_loc: Vec2,
}

impl BlitzToLocation {
    pub fn new(target_loc: Vec2) -> (r: BlitzToLocation)
        ensures
            r.target_loc == target_loc,
    {
        BlitzToLocation { target_loc }
    }

    /// One tick (see `blitz_task_spec`).
    pub fn execute_old(&self, ctx: &Context) -> (r: Action<Task>)
        ensures
            blitz_task_spec(ctx.scenario.me_spec(), self.target_loc, r),
    {
        let me = *ctx.me();
        match blitz_choice(&me, self.target_loc) {
            BlitzChoice::Boost(steer) => Action::Yield(
                Command { throttle: 1000, steer, boost: true, ..Command::neutral() },
            ),
            BlitzChoice::Drive(steer) => Action::Yield(
                Command { throttle: 1000, steer, ..Command::neutral() },
            ),
            BlitzChoice::Wavedash => {
                let mut steps = Vec::new();
                steps.push(Task::Yielder(Yielder::new(6, Command::neutral())));
                steps.push(Task::Wavedash(Wavedash::new()));
                proof {
                    assert(steps@ =~= seq![
                        Task::Yielder(Yielder { duration: 6, command: Command::neutral_spec(), start: None }),
                        Task::Wavedash(new_wavedash_spec()),
                    ]);
                }
                Action::TailCall(Task::Chain(Priority::Idle, steps))
            },
        }
    }
}

impl crate::field::GetToFlatGround {
    /// One tick of getting back to flat ground (see `flat_ground_command_spec`).
    pub fn execute2(&self, ctx: &Context) -> (r: Action<Task>)
        ensures
            match flat_ground_command_spec(ctx.scenario.me_spec()) {
                Some(c) => r == Action::<Task>::Yield(c),
                None => r == Action::<Task>::Return,
            },
    {
        let me = *ctx.me();
        match flat_ground_command(&me) {
            Some(c) => Action::Yield(c),
            None => Action::Return,
        }
    }
}

/// Arrive at a spot at a game time (in ticks).
#[derive(Clone, Copy, Debug, PartialEq, Eq, Structural)]
pub struct GroundAccelToLoc {
    pub target_loc: Vec2,
    pub target_time: u32,
}

impl GroundAccelToLoc {
    pub fn new(target_loc: Vec2, target_time: u32) -> (r: GroundAccelToLoc)
        ensures
            r.target_loc == target_loc,
            r.target_time == target_time,
    {
        GroundAccelToLoc { target_loc, target_time }
    }

    /// One tick (see `accel_to_loc_spec`); off flat ground it calls `GetToFlatGround`.
    pub fn execute(&self, ctx: &Context) -> (r: Action<Task>)
        ensures
            match accel_to_loc_spec(ctx.scenario.me_spec(), self.target_loc, self.target_time, ctx.time) {
                Some(c) => r == Action::<Task>::Yield(c),
                None => r == Action::Call(Task::GetToFlatGround),
            },
    {
        let me = *ctx.me();
        match accel_to_loc(&me, self.target_loc, self.target_time, ctx.time) {
            Some(c) => Action::Yield(c),
            None => Action::Call(Task::GetToFlatGround),
        }
    }
}

impl Behavior<Context> for Task {
    open spec fn priority_spec(&self) -> Priority {
        match self {
            Task::Chain(p, _) => *p,
            Task::Wavedash(_) => Priority::Force,
            _ => Priority::Idle,
        }
    }

    open spec fn name_spec(&self) -> Seq<char> {
        match self {
            Task::Null(_) => "NullBehavior"@,
            Task::Once(_) => "Once"@,
            Task::Delay(_, _) => "Delay"@,
            Task::Yielder(_) => "Yielder"@,
            Task::Chain(_, _) => "Chain"@,
            Task::Wavedash(_) => "Wavedash"@,
            Task::BlitzToLocation(_) => "BlitzToLocation"@,
            Task::FollowRoute(_) => "FollowRoute"@,
            Task::GroundAccelToLoc(_, _) => "GroundAccelToLoc"@,
            Task::GetToFlatGround => "GetToFlatGround"@,
        }
    }

    /// One step of each task:
    /// - Null: yield the neutral command.
    /// - Once: call the child the first time, then yield the neutral command.
    /// - Delay: yield the neutral command before the time, then like Once.
    /// - Yielder: yield its command until its duration has passed since its first tick, then
    ///   return.
    /// - Chain: abort if a child aborted, else call the next child, else return.
    /// - Wavedash: one `wavedash_step_spec` step (aborting on an inconsistent clock or throttle).
    /// - BlitzToLocation: per `blitz_choice_spec`; a wavedash becomes a tail call to a chain of a
    ///   short settling pause and a wavedash.
    /// - FollowRoute: per `follow_spec`.
    /// - GroundAccelToLoc: per `accel_to_loc_spec`; off flat ground, call GetToFlatGround.
    /// - GetToFlatGround: per `flat_ground_command_spec`; return once on flat ground.
    open spec fn execute_spec(self, ctx: Context, resume: Resume, next: Self, r: Action<Self>) -> bool {
        let n = Command::neutral_spec();
        let me = ctx.scenario.me_spec();
        match self {
            Task::Null(_) => next == self && r == Action::<Task>::Yield(n),
            Task::Once(child) => match child {
                Some(b) => next == Task::Once(None) && r == Action::Call(*b),
                None => next == self && r == Action::<Task>::Yield(n),
            },
            Task::Delay(t, child) => if ctx.time < t {
                next == self && r == Action::<Task>::Yield(n)
            } else {
                match child {
                    Some(b) => next == Task::Delay(t, None) && r == Action::Call(*b),
                    None => next == self && r == Action::<Task>::Yield(n),
                }
            },
            Task::Yielder(y) => {
                let st = match y.start {
                    Some(t) => t,
                    None => ctx.time,
                };
                &&& next == Task::Yielder(Yielder { start: Some(st), ..y })
                &&& r == if ctx.time >= st && ctx.time - st >= y.duration {
                    Action::<Task>::Return
                } else {
                    Action::<Task>::Yield(y.command)
                }
            },
            Task::Chain(p, ch) => if resume == Resume::ChildAborted {
                next == self && r == Action::<Task>::Abort
            } else if ch@.len() == 0 {
                next == self && r == Action::<Task>::Return
            } else {
                &&& next is Chain
                &&& next->Chain_0 == p
                &&& next->Chain_1@ == ch@.drop_first()
                &&& r == Action::Call(ch@[0])
            },
            Task::Wavedash(w) => next is Wavedash && wavedash_task_spec(w, ctx, next->Wavedash_0, r),
            Task::BlitzToLocation(target) => next == self && blitz_task_spec(me, target, r),
            Task::FollowRoute(f) => {
                let (i2, s2, c) = follow_spec(f.segments@, f.index as int, f.segment_start, ctx.time, me);
                &&& next is FollowRoute
                &&& next->FollowRoute_0.segments@ == f.segments@
                &&& next->FollowRoute_0.index == i2
                &&& next->FollowRoute_0.segment_start == s2
                &&& r == match c {
                    Some(c) => Action::<Task>::Yield(c),
                    None => Action::<Task>::Return,
                }
            },
            Task::GroundAccelToLoc(target, tt) => next == self && match accel_to_loc_spec(
                me,
                target,
                tt,
                ctx.time,
            ) {
                Some(c) => r == Action::<Task>::Yield(c),
                None => r == Action::Call(Task::GetToFlatGround),
            },
            Task::GetToFlatGround => next == self && match flat_ground_command_spec(me) {
                Some(c) => r == Action::<Task>::Yield(c),
                None => r == Action::<Task>::Return,
            },
        }
    }

    fn name(&self) -> (r: &'static str) {
        proof {
            reveal_strlit("NullBehavior");
            reveal_strlit("Once");
            reveal_strlit("Delay");
            reveal_strlit("Yielder");
            reveal_strlit("Chain");
            reveal_strlit("Wavedash");
            reveal_strlit("BlitzToLocation");
            reveal_strlit("FollowRoute");
            reveal_strlit("GroundAccelToLoc");
            reveal_strlit("GetToFlatGround");
        }
        match self {
            Task::Null(_) => "NullBehavior",
            Task::Once(_) => "Once",
            Task::Delay(_, _) => "Delay",
            Task::Yielder(_) => "Yielder",
            Task::Chain(_, _) => "Chain",
            Task::Wavedash(_) => "Wavedash",
            Task::BlitzToLocation(_) => "BlitzToLocation",
            Task::FollowRoute(_) => "FollowRoute",
            Task::GroundAccelToLoc(_, _) => "GroundAccelToLoc",
            Task::GetToFlatGround => "GetToFlatGround",
        }
    }

    fn priority(&self) -> (r: Priority) {
        match self {
            Task::Chain(p, _) => *p,
            Task::Wavedash(_) => Priority::Force,
            _ => Priority::Idle,
        }
    }

    fn execute(&mut self, ctx: &mut Context, resume: Resume) -> (r: Action<Task>) {
        let n = Command::neutral();
        match self {
            Task::Null(_) => Action::Yield(n),
            Task::Once(child) => match child.take() {
                Some(b) => Action::Call(*b),
                None => Action::Yield(n),
            },
            Task::Delay(time, child) => {
                if ctx.time < *time {
                    Action::Yield(n)
                } else {
                    match child.take() {
                        Some(b) => Action::Call(*b),
                        None => Action::Yield(n),
                    }
                }
            },
            Task::Yielder(y) => {
                let start = match y.start {
                    Some(t) => t,
                    None => ctx.time,
                };
                y.start = Some(start);
                if ctx.time >= start && ctx.time - start >= y.duration {
                    Action::Return
                } else {
                    Action::Yield(y.command)
                }
            },
            Task::Chain(_, children) => {
                if resume == Resume::ChildAborted {
                    Action::Abort
                } else if children.len() == 0 {
                    Action::Return
                } else {
                    Action::Call(children.remove(0))
                }
            },
            Task::Wavedash(w) => w.execute_old(ctx),
            Task::GroundAccelToLoc(target, target_time) => GroundAccelToLoc::new(
                *target,
                *target_time,
            ).execute(ctx),
            Task::GetToFlatGround => crate::field::GetToFlatGround::new().execute2(ctx),
            Task::FollowRoute(route) => {
                let me = *ctx.me();
                match route.advance(ctx.time, &me) {
                    Some(c) => Action::Yield(c),
                    None => Action::Return,
                }
            },
            Task::BlitzToLocation(target) => BlitzToLocation::new(*target).execute_old(ctx),
        }
    }
}

/// Ticks of input lag assumed before a full-throttle approach starts, in half ticks.
pub const INPUT_LAG_HALF_TICKS: u64 = 3;

/// Ticks per step of the approach estimate.
pub const APPROACH_STEP_TICKS: u32 = 2;

/// The approach car after `k` steps.
pub open spec fn approach_car(start: Car1D, k: nat) -> Car1D {
    start.run_spec(k * APPROACH_STEP_TICKS as nat, true, true)
}

/// Whether going full throttle (and boost) covers `distance` unreal units within `half_ticks`
/// half ticks, starting after the input lag; checked every `APPROACH_STEP_TICKS` ticks.
pub open spec fn approach_reaches_from(start: Car1D, distance: int, half_ticks: int, k: nat) -> bool
    decreases MAX_SIM_TICKS / APPROACH_STEP_TICKS - k,
{
    if k >= MAX_SIM_TICKS / APPROACH_STEP_TICKS || INPUT_LAG_HALF_TICKS + 2 * APPROACH_STEP_TICKS * k
        >= half_ticks {
        false
    } else if approach_car(start, k + 1).dist >= distance * 120 {
        true
    } else {
        approach_reaches_from(start, distance, half_ticks, k + 1)
    }
}

/// Starting at `car`'s speed and boost, if we go pedal to the metal for `half_ticks` half
/// ticks, will we have travelled `distance`?
pub fn estimate_approach(car: &CarInfo, distance: u64, half_ticks: u64) -> (r: bool)
    requires
        distance <= 100_000,
    ensures
        r == approach_reaches_from(
            Car1D::new_spec(len3_spec(car.vel)).with_boost_spec(car.boost as int),
            distance as int,
            half_ticks as int,
            0,
        ),
{
    let start = Car1D::new(crate::scenario::length3(car.vel) as i64).with_boost(car.boost);
    let ghost g = start;
    assert(g == Car1D::new_spec(len3_spec(car.vel)).with_boost_spec(car.boost as int));
    let mut sim = start;
    let mut k: u32 = 0;
    while k < MAX_SIM_TICKS / APPROACH_STEP_TICKS
        invariant
            k <= MAX_SIM_TICKS / APPROACH_STEP_TICKS,
            g == Car1D::new_spec(len3_spec(car.vel)).with_boost_spec(car.boost as int),
            g.wf(),
            g.time == 0,
            sim == approach_car(g, k as nat),
            sim.wf(),
            sim.time == k * APPROACH_STEP_TICKS,
            distance <= 100_000,
            approach_reaches_from(g, distance as int, half_ticks as int, 0) == approach_reaches_from(
                g,
                distance as int,
                half_ticks as int,
                k as nat,
            ),
        decreases MAX_SIM_TICKS / APPROACH_STEP_TICKS - k,
    {
        assert(k <= 3600);
        let elapsed: u64 = INPUT_LAG_HALF_TICKS + 4 * k as u64;
        assert(elapsed == INPUT_LAG_HALF_TICKS + 2 * APPROACH_STEP_TICKS * k);
        if elapsed >= half_ticks {
            return false;
        }
        sim.multi_step(APPROACH_STEP_TICKS, true, true);
        proof {
            crate::car1d::lemma_run_add(g, (k * APPROACH_STEP_TICKS) as nat, APPROACH_STEP_TICKS as nat, true, true);
            assert((k * APPROACH_STEP_TICKS) as nat + APPROACH_STEP_TICKS as nat == ((k + 1) as nat)
                * APPROACH_STEP_TICKS as nat);
            crate::car1d::lemma_run_time(g, ((k + 1) as nat) * APPROACH_STEP_TICKS as nat, true, true);
            assert(sim == approach_car(g, (k + 1) as nat));
        }
        if sim.dist >= distance * 120 {
            return true;
        }
        k = k + 1;
    }
    false
}

/// Accelerate towards a spot so as to arrive there at a given game time: back off the
/// throttle if full throttle would arrive early, otherwise drive (boosting when lined up).
/// `None` means the car must first get back to flat ground.
pub open spec fn accel_to_loc_spec(me: CarInfo, target: Vec2, target_time: u32, now: u32) -> Option<
    Command,
> {
    if !me.state_spec().on_flat_ground_spec() {
        None
    } else {
        let d = sub2_spec(target, me.loc.to_2d_spec());
        let distance = len_spec(d);
        let half_ticks = if target_time >= now + 2 {
            2 * (target_time - now - 2)
        } else {
            0
        };
        let start = Car1D::new_spec(len3_spec(me.vel)).with_boost_spec(me.boost as int);
        let too_fast = approach_reaches_from(start, distance, half_ticks, 0);
        let steer = steer_spec(vec2_int(me.forward), d) as i16;
        let boost = !too_fast && me.on_ground && within_angle_spec(vec2_int(me.forward), d, 707)
            && len3_spec(me.vel) < CAR_ALMOST_MAX_SPEED && me.boost > 0;
        Some(
            Command {
                throttle: if too_fast {
                    0
                } else {
                    1000
                },
                steer,
                boost,
                ..Command::neutral_spec()
            },
        )
    }
}

pub fn accel_to_loc(me: &CarInfo, target: Vec2, target_time: u32, now: u32) -> (r: Option<Command>)
    ensures
        r == accel_to_loc_spec(*me, target, target_time, now),
{
    if !me.state().on_flat_ground() {
        return None;
    }
    let d = sub2(target, me.loc.to_2d());
    let distance = length(d.0, d.1);
    let half_ticks: u64 = if target_time as u64 >= now as u64 + 2 {
        2 * (target_time as u64 - now as u64 - 2)
    } else {
        0
    };
    let too_fast = estimate_approach(me, distance, half_ticks);
    let f = (me.forward.x as i64, me.forward.y as i64);
    let steer = steer_towards(me.forward, d);
    let speed = crate::scenario::length3(me.vel) as i64;
    let boost = !too_fast && me.on_ground && within_angle(f, d, 707) && speed < CAR_ALMOST_MAX_SPEED
        && me.boost > 0;
    Some(
        Command {
            throttle: if too_fast {
                0
            } else {
                1000
            },
            steer,
            boost,
            ..Command::neutral()
        },
    )
}

/// The roof points within 60 degrees of straight down.
pub open spec fn upside_down_spec(me: CarInfo) -> bool {
    let (x, y, z) = (me.roof.x as int, me.roof.y as int, me.roof.z as int);
    z < 0 && 4 * (z * z) > x * x + y * y + z * z
}

fn is_upside_down(me: &CarInfo) -> (r: bool)
    ensures
        r == upside_down_spec(*me),
{
    let (x, y, z) = (me.roof.x as i64, me.roof.y as i64, me.roof.z as i64);
    assert(0 <= x * x <= 0x4000_0000 && 0 <= y * y <= 0x4000_0000 && 0 <= z * z <= 0x4000_0000)
        by (nonlinear_arith)
        requires
            -32768 <= x <= 32767,
            -32768 <= y <= 32767,
            -32768 <= z <= 32767,
    ;
    z < 0 && 4 * (z * z) > x * x + y * y + z * z
}

/// Direction to drive on a surface that is not flat ground: towards the point ahead and below
/// in the car's own frame (the nose direction minus the roof's ground-plane part).
pub open spec fn off_ground_heading(me: CarInfo) -> (int, int) {
    (me.forward.x - me.roof.x, me.forward.y - me.roof.y)
}

pub open spec fn clamp_axis_spec(v: int) -> int {
    if v < -1000 {
        -1000
    } else if v > 1000 {
        1000
    } else {
        v
    }
}

/// Spin rate (milliradians per second) above which the car is taken to be mid-dodge.
pub const SPINNING_MRAD_PER_S: i64 = 5000;

pub open spec fn spinning_spec(me: CarInfo) -> bool {
    me.ang_vel.x * me.ang_vel.x + me.ang_vel.y * me.ang_vel.y + me.ang_vel.z * me.ang_vel.z
        >= SPINNING_MRAD_PER_S * SPINNING_MRAD_PER_S
}

/// How to get back onto flat ground; `None` once there. Upside down on a surface (under a
/// goal's ceiling): jump off it. On some other surface: drive towards the point ahead and below
/// in the car's frame (`off_ground_heading`). In the air
/// and spinning fast (probably mid-dodge): sit tight at full throttle. Otherwise in the air:
/// pitch and roll back towards level (a milliradian of tilt asks for a thousandth of
/// deflection), at full throttle.
pub open spec fn flat_ground_command_spec(me: CarInfo) -> Option<Command> {
    let n = Command::neutral_spec();
    if me.state_spec().on_flat_ground_spec() {
        None
    } else if me.on_ground && upside_down_spec(me) {
        Some(Command { jump: true, ..n })
    } else if me.on_ground {
        Some(
            Command {
                throttle: 1000,
                steer: steer_spec(vec2_int(me.forward), off_ground_heading(me)) as i16,
                ..n
            },
        )
    } else if spinning_spec(me) {
        Some(Command { throttle: 1000, ..n })
    } else {
        Some(
            Command {
                throttle: 1000,
                pitch: clamp_axis_spec(-me.pitch) as i16,
                roll: clamp_axis_spec(-me.roll) as i16,
                ..n
            },
        )
    }
}

fn is_spinning(me: &CarInfo) -> (r: bool)
    ensures
        r == spinning_spec(*me),
{
    let (x, y, z) = (me.ang_vel.x as i64, me.ang_vel.y as i64, me.ang_vel.z as i64);
    assert(0 <= x * x <= 0x4000_0000 && 0 <= y * y <= 0x4000_0000 && 0 <= z * z <= 0x4000_0000)
        by (nonlinear_arith)
        requires
            -32768 <= x <= 32767,
            -32768 <= y <= 32767,
            -32768 <= z <= 32767,
    ;
    x * x + y * y + z * z >= SPINNING_MRAD_PER_S * SPINNING_MRAD_PER_S
}

pub fn flat_ground_command(me: &CarInfo) -> (r: Option<Command>)
    ensures
        r == flat_ground_command_spec(*me),
{
    if me.state().on_flat_ground() {
        None
    } else if me.on_ground && is_upside_down(me) {
        Some(Command { jump: true, ..Command::neutral() })
    } else if me.on_ground {
        let d = (me.forward.x as i64 - me.roof.x as i64, me.forward.y as i64 - me.roof.y as i64);
        Some(Command { throttle: 1000, steer: steer_towards(me.forward, d), ..Command::neutral() })
    } else if is_spinning(me) {
        Some(Command { throttle: 1000, ..Command::neutral() })
    } else {
        let p = -(me.pitch as i32);
        let r = -(me.roll as i32);
        let pc: i16 = if p < -1000 {
            -1000
        } else if p > 1000 {
            1000
        } else {
            p as i16
        };
        let rc: i16 = if r < -1000 {
            -1000
        } else if r > 1000 {
            1000
        } else {
            r as i16
        };
        Some(Command { throttle: 1000, pitch: pc, roll: rc, ..Command::neutral() })
    }
}

/// Ticks of steering charged per full turn-around in the rough drive-time estimate.
pub const ROUGH_STEER_PENALTY_TICKS: u64 = 188;

/// Ticks of input lag added to the rough drive-time estimate.
pub const ROUGH_BASE_TICKS: u64 = 2;

/// A rough estimate of the ticks to drive to `target_loc`: input lag, a steering penalty that
/// grows with the turn needed, and the time of a full-throttle straight drive.
pub open spec fn rough_time_spec(car: CarInfo, target_loc: Vec2) -> int {
    let d = sub2_spec(target_loc, car.loc.to_2d_spec());
    let start = Car1D::new_spec(len3_spec(car.vel)).with_boost_spec(car.boost as int);
    let drive = crate::routing::blitz_until(start, len_spec(d) * 120, MAX_SIM_TICKS as nat);
    ROUGH_BASE_TICKS + crate::scenario::turn_penalty_spec(vec2_int(car.forward), d)
        * ROUGH_STEER_PENALTY_TICKS / crate::scenario::TURN_PENALTY_TICKS as int + drive.time
}

pub fn rough_time_drive_to_loc(car: &CarInfo, target_loc: Vec2) -> (r: u64)
    ensures
        r == rough_time_spec(*car, target_loc),
{
    let d = sub2(target_loc, car.loc.to_2d());
    let start = Car1D::new(crate::scenario::length3(car.vel) as i64).with_boost(car.boost);
    let drive = crate::routing::blitz_to(start, length(d.0, d.1) * 120);
    let pen = crate::scenario::turn_penalty_pub(car.forward, d) as u64;
    ROUGH_BASE_TICKS + pen * ROUGH_STEER_PENALTY_TICKS / crate::scenario::TURN_PENALTY_TICKS as u64
        + drive.time as u64
}

} // verus!
