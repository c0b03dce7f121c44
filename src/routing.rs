use crate::car1d::{dodge_spec, forward_dodge, Car1D, Dodge1D, CAR_MAX_SPEED, MAX_SIM_TICKS};
use crate::geometry::{
    dot2, is_isqrt, isqrt, move_toward, move_toward_spec, scale_to, scale_to_spec, sub2, sub2_spec,
    within_angle, within_angle_spec, Vec2, Vec3,
};
use vstd::prelude::*;

verus! {

/// 15 degrees, in milliradians: the most tilt that still counts as flat ground.
pub const FLAT_TILT_MRAD: i16 = 262;

/// Below this speed a car cannot be skidding.
pub const SKID_MIN_SPEED: i64 = 100;

/// cos(15 degrees) in thousandths: velocity further than this from the nose means skidding.
pub const SKID_COS_MILLI: u16 = 966;

/// cos(15 degrees) in thousandths: a target further than this from the nose is not faced.
pub const FACING_COS_MILLI: u16 = 966;

/// Ticks of driving between two candidate dodge points.
pub const DODGE_GRANULARITY: u32 = 12;

/// Candidate dodge points examined at most: five seconds of approach.
pub const MAX_DODGE_CANDIDATES: u32 = 50;

/// Longest target time and end chop a planner accepts: fifteen seconds.
pub const MAX_PLAN_TICKS: u32 = 1800;

/// A car's physical state. `forward` is the nose direction (any length, conventionally
/// 1000); `pitch` and `roll` are in milliradians.
#[derive(Clone, Copy, Debug, PartialEq, Eq, Structural)]
pub struct CarState {
    pub loc: Vec3,
    pub vel: Vec3,
    pub forward: Vec2,
    pub pitch: i16,
    pub roll: i16,
    pub on_ground: bool,
    pub boost: u8,
}

/// A car's state projected onto the ground plane.
#[derive(Clone, Copy, Debug, PartialEq, Eq, Structural)]
pub struct CarState2D {
    pub loc: Vec2,
    pub vel: Vec2,
    pub forward: Vec2,
    pub boost: u8,
}

pub open spec fn vec2_int(v: Vec2) -> (int, int) {
    (v.x as int, v.y as int)
}

impl CarState {
    pub open spec fn to_2d_spec(self) -> CarState2D {
        CarState2D {
            loc: self.loc.to_2d_spec(),
            vel: self.vel.to_2d_spec(),
            forward: self.forward,
            boost: self.boost,
        }
    }

    pub fn to_2d(&self) -> (r: CarState2D)
        ensures
            r == self.to_2d_spec(),
    {
        CarState2D {
            loc: self.loc.to_2d(),
            vel: self.vel.to_2d(),
            forward: self.forward,
            boost: self.boost,
        }
    }

    pub open spec fn on_flat_ground_spec(self) -> bool {
        self.on_ground && -FLAT_TILT_MRAD < self.pitch < FLAT_TILT_MRAD && -FLAT_TILT_MRAD
            < self.roll < FLAT_TILT_MRAD
    }

    /// Wheels down, with pitch and roll under 15 degrees.
    pub fn on_flat_ground(&self) -> (r: bool)
        ensures
            r == self.on_flat_ground_spec(),
    {
        self.on_ground && -FLAT_TILT_MRAD < self.pitch && self.pitch < FLAT_TILT_MRAD
            && -FLAT_TILT_MRAD < self.roll && self.roll < FLAT_TILT_MRAD
    }

    pub open spec fn skidding_spec(self) -> bool {
        let v = vec2_int(self.vel.to_2d_spec());
        &&& v.0 * v.0 + v.1 * v.1 >= SKID_MIN_SPEED * SKID_MIN_SPEED
        &&& !within_angle_spec(vec2_int(self.forward), v, SKID_COS_MILLI as int)
    }

    /// Moving at some speed in a direction more than 15 degrees away from the nose.
    pub fn is_skidding(&self) -> (r: bool)
        ensures
            r == self.skidding_spec(),
    {
        let v = (self.vel.x as i64, self.vel.y as i64);
        let f = (self.forward.x as i64, self.forward.y as i64);
        dot2(v, v) >= SKID_MIN_SPEED * SKID_MIN_SPEED && !within_angle(f, v, SKID_COS_MILLI)
    }

    pub open spec fn facing_spec(self, target: Vec2) -> bool {
        within_angle_spec(
            vec2_int(self.forward),
            sub2_spec(target, self.loc.to_2d_spec()),
            FACING_COS_MILLI as int,
        )
    }

    /// The target lies within 15 degrees of the nose.
    pub fn is_facing(&self, target: Vec2) -> (r: bool)
        ensures
            r == self.facing_spec(target),
    {
        let d = sub2(target, self.loc.to_2d());
        let f = (self.forward.x as i64, self.forward.y as i64);
        within_angle(f, d, FACING_COS_MILLI)
    }
}

/// How a straight segment is driven: as fast as possible, or paced to arrive on time.
#[derive(Clone, Copy, Debug, PartialEq, Eq, Structural)]
pub enum StraightMode {
    Asap,
    Real,
}

/// Why a planner could not produce a plan.
#[derive(Clone, Copy, Debug, PartialEq, Eq, Structural)]
pub enum RoutePlanError {
    MustBeOnFlatGround,
    /// Recover first; `recover_target_loc` is where to head meanwhile.
    MustNotBeSkidding { recover_target_loc: Vec2 },
    MustBeFacingTarget,
    MovingTooFast,
}

/// Floor of the length of `v`.
pub open spec fn len_spec(v: (int, int)) -> int {
    choose|q: int| #[trigger] is_isqrt(v.0 * v.0 + v.1 * v.1, q)
}

pub proof fn lemma_isqrt_unique(n: int, a: int, b: int)
    requires
        is_isqrt(n, a),
        is_isqrt(n, b),
    ensures
        a == b,
{
    if a < b {
        assert((a + 1) * (a + 1) <= b * b) by (nonlinear_arith)
            requires
                a + 1 <= b,
                a >= 0,
        ;
    } else if b < a {
        assert((b + 1) * (b + 1) <= a * a) by (nonlinear_arith)
            requires
                b + 1 <= a,
                b >= 0,
        ;
    }
}

/// Floor of the length of `(dx, dy)`.
pub fn length(dx: i64, dy: i64) -> (r: u64)
    requires
        -65536 <= dx <= 65536,
        -65536 <= dy <= 65536,
    ensures
        r as int == len_spec((dx as int, dy as int)),
        r <= 92682,
{
    let n = dot2((dx, dy), (dx, dy));
    assert(0 <= n <= 8589934592) by (nonlinear_arith)
        requires
            n == dx * dx + dy * dy,
            -65536 <= dx <= 65536,
            -65536 <= dy <= 65536,
    ;
    let r = isqrt(n as u64);
    proof {
        let q = len_spec((dx as int, dy as int));
        assert(is_isqrt(n as int, r as int));
        assert(exists|q: int| is_isqrt(n as int, q));
        lemma_isqrt_unique(n as int, q, r as int);
        if r > 92682 {
            assert(92683 * 92683 <= r * r) by (nonlinear_arith)
                requires
                    r >= 92683,
            ;
        }
    }
    r
}

/// The car after blitzing (full throttle and boost) until it has covered `target` (in 1/120
/// unreal units) or `fuel` ticks have passed.
pub open spec fn blitz_until(c: Car1D, target: int, fuel: nat) -> Car1D
    decreases fuel,
{
    if c.dist >= target || fuel == 0 {
        c
    } else {
        blitz_until(c.step_spec(true, true), target, (fuel - 1) as nat)
    }
}

/// Blitzing stops at the first tick that covers `target`, or when the fuel runs out: the
/// returned `t` is that tick count.
pub proof fn lemma_blitz_until(c: Car1D, target: int, fuel: nat) -> (t: nat)
    requires
        c.wf(),
        c.time + fuel <= MAX_SIM_TICKS,
    ensures
        t <= fuel,
        blitz_until(c, target, fuel) == c.run_spec(t, true, true),
        forall|n: nat| n < t ==> (#[trigger] c.run_spec(n, true, true)).dist < target,
        c.run_spec(t, true, true).dist >= target || t == fuel,
    decreases fuel,
{
    if c.dist >= target || fuel == 0 {
        0
    } else {
        let c1 = c.step_spec(true, true);
        assert(c.run_spec(1, true, true) == c1) by {
            assert(c.run_spec(0, true, true) == c);
        }
        let t1 = lemma_blitz_until(c1, target, (fuel - 1) as nat);
        crate::car1d::lemma_run_add(c, 1, t1, true, true);
        assert forall|n: nat| n < t1 + 1 implies (#[trigger] c.run_spec(n, true, true)).dist < target by {
            if n > 0 {
                crate::car1d::lemma_run_add(c, 1, (n - 1) as nat, true, true);
                assert(1 + (n - 1) as nat == n);
                assert(c1.run_spec((n - 1) as nat, true, true).dist < target);
            }
        }
        assert(1 + t1 == t1 + 1);
        t1 + 1
    }
}

pub fn blitz_to(c: Car1D, target: u64) -> (r: Car1D)
    requires
        c.wf(),
    ensures
        r == blitz_until(c, target as int, (MAX_SIM_TICKS - c.time) as nat),
        r.wf(),
        r.time <= MAX_SIM_TICKS,
{
    let mut car = c;
    while car.dist < target && car.time < MAX_SIM_TICKS
        invariant
            car.wf(),
            blitz_until(car, target as int, (MAX_SIM_TICKS - car.time) as nat) == blitz_until(
                c,
                target as int,
                (MAX_SIM_TICKS - c.time) as nat,
            ),
        decreases MAX_SIM_TICKS - car.time,
    {
        car.step(true, true);
    }
    car
}

/// Scalar speed of a planar velocity, floored.
fn speed_of(v: Vec2) -> (r: u64)
    ensures
        r as int == len_spec(vec2_int(v)),
        r <= 92682,
{
    length(v.x as i64, v.y as i64)
}

/// Drive straight at the target, as fast as possible; the segment ends `end_chop` ticks
/// before arrival so that a following maneuver has time.
#[derive(Clone, Copy, Debug, PartialEq, Eq, Structural)]
pub struct Straight {
    pub start: CarState2D,
    pub target_loc: Vec2,
    pub end_chop: u32,
    pub mode: StraightMode,
    pub duration: u32,
    pub end: CarState2D,
}

pub open spec fn car_for(s: CarState2D) -> Car1D {
    Car1D::new_spec(len_spec(vec2_int(s.vel))).with_boost_spec(s.boost as int)
}

pub open spec fn straight_duration_spec(start: CarState2D, target_loc: Vec2, end_chop: int) -> int {
    let dist = len_spec(sub2_spec(target_loc, start.loc));
    let arrive = blitz_until(car_for(start), dist * 120, MAX_SIM_TICKS as nat).time;
    if end_chop <= arrive {
        arrive - end_chop
    } else {
        0
    }
}

/// Where a straight segment leaves the car after `duration` ticks of blitzing along the line
/// to the target: that far along the line, moving along it, nose unchanged.
pub open spec fn straight_end_spec(start: CarState2D, target_loc: Vec2, duration: int) -> CarState2D {
    let d = sub2_spec(target_loc, start.loc);
    let at_end = car_for(start).run_spec(duration as nat, true, true);
    CarState2D {
        loc: move_toward_spec(start.loc, target_loc, at_end.dist as int / 120),
        vel: scale_to_spec(d.0, d.1, at_end.speed as int),
        forward: start.forward,
        boost: (at_end.boost_ticks * 5 / 18) as u8,
    }
}

/// The straight segment from `start` to `target_loc`.
pub open spec fn straight_spec(start: CarState2D, target_loc: Vec2, end_chop: int, mode: StraightMode) -> Straight {
    let duration = straight_duration_spec(start, target_loc, end_chop);
    Straight {
        start,
        target_loc,
        end_chop: end_chop as u32,
        mode,
        duration: duration as u32,
        end: straight_end_spec(start, target_loc, duration),
    }
}

/// The forward dodge from `start` towards `toward`.
pub open spec fn forward_dodge_spec(start: CarState2D, dodge: Dodge1D, toward: Vec2) -> ForwardDodge {
    ForwardDodge {
        start,
        dodge,
        end: CarState2D {
            loc: move_toward_spec(start.loc, toward, dodge.end_dist as int / 120),
            vel: scale_to_spec(
                sub2_spec(toward, start.loc).0,
                sub2_spec(toward, start.loc).1,
                dodge.end_speed as int,
            ),
            forward: start.forward,
            boost: start.boost,
        },
    }
}

impl Straight {
    pub fn new(start: CarState2D, target_loc: Vec2, end_chop: u32, mode: StraightMode) -> (r:
        Straight)
        ensures
            r == straight_spec(start, target_loc, end_chop as int, mode),
            r.start == start,
            r.target_loc == target_loc,
            r.end_chop == end_chop,
            r.mode == mode,
            r.duration == straight_duration_spec(start, target_loc, end_chop as int),
            r.duration <= MAX_SIM_TICKS,
            r.end == straight_end_spec(start, target_loc, r.duration as int),
    {
        let (dx, dy) = sub2(target_loc, start.loc);
        let dist = length(dx, dy);
        let car = Car1D::new(speed_of(start.vel) as i64).with_boost(start.boost);
        let arrive = blitz_to(car, dist * 120);
        let duration = if end_chop <= arrive.time {
            arrive.time - end_chop
        } else {
            0
        };
        let mut at_end = car;
        at_end.multi_step(duration, true, true);
        let loc = move_toward(start.loc, target_loc, at_end.dist / 120);
        let vel = scale_to(dx, dy, at_end.speed);
        let end = CarState2D { loc, vel, forward: start.forward, boost: at_end.boost() };
        Straight { start, target_loc, end_chop, mode, duration, end }
    }
}

/// A forward dodge towards `toward`, from jump to landing.
#[derive(Clone, Copy, Debug, PartialEq, Eq, Structural)]
pub struct ForwardDodge {
    pub start: CarState2D,
    pub dodge: Dodge1D,
    pub end: CarState2D,
}

impl ForwardDodge {
    pub fn new(start: CarState2D, dodge: Dodge1D, toward: Vec2) -> (r: ForwardDodge)
        requires
            dodge.end_speed <= CAR_MAX_SPEED,
        ensures
            r == forward_dodge_spec(start, dodge, toward),
            r.start == start,
            r.dodge == dodge,
            r.end == (CarState2D {
                loc: move_toward_spec(start.loc, toward, dodge.end_dist as int / 120),
                vel: scale_to_spec(
                    sub2_spec(toward, start.loc).0,
                    sub2_spec(toward, start.loc).1,
                    dodge.end_speed as int,
                ),
                forward: start.forward,
                boost: start.boost,
            }),
    {
        let (dx, dy) = sub2(toward, start.loc);
        let loc = move_toward(start.loc, toward, dodge.end_dist / 120);
        let vel = scale_to(dx, dy, dodge.end_speed);
        let end = CarState2D { loc, vel, forward: start.forward, boost: start.boost };
        ForwardDodge { start, dodge, end }
    }
}

/// One piece of a route.
#[derive(Clone, Copy, Debug, PartialEq, Eq, Structural)]
pub enum Segment {
    Straight(Straight),
    Dodge(ForwardDodge),
}

impl Segment {
    pub open spec fn start_spec(self) -> CarState2D {
        match self {
            Segment::Straight(s) => s.start,
            Segment::Dodge(d) => d.start,
        }
    }

    pub open spec fn duration_spec(self) -> int {
        match self {
            Segment::Straight(s) => s.duration as int,
            Segment::Dodge(d) => d.dodge.duration as int,
        }
    }

    pub fn start(&self) -> (r: CarState2D)
        ensures
            r == self.start_spec(),
    {
        match self {
            Segment::Straight(s) => s.start,
            Segment::Dodge(d) => d.start,
        }
    }

    pub fn duration(&self) -> (r: u32)
        ensures
            r == self.duration_spec(),
    {
        match self {
            Segment::Straight(s) => s.duration,
            Segment::Dodge(d) => d.dodge.duration,
        }
    }
}

pub open spec fn total_duration(segs: Seq<Segment>) -> int
    decreases segs.len(),
{
    if segs.len() == 0 {
        0
    } else {
        total_duration(segs.drop_last()) + segs.last().duration_spec()
    }
}

/// A chain of segments, driven one after another.
pub struct RoutePlan {
    pub segments: Vec<Segment>,
}

impl RoutePlan {
    pub open spec fn duration_spec(&self) -> int {
        total_duration(self.segments@)
    }

    pub open spec fn first_start(&self) -> CarState2D {
        self.segments@[0].start_spec()
    }

    /// Sum of the segments' durations, in ticks.
    pub fn duration(&self) -> (r: u64)
        requires
            self.segments@.len() <= 0xFFFF_FFFF,
        ensures
            r == self.duration_spec(),
    {
        let mut total: u64 = 0;
        let mut i: usize = 0;
        while i < self.segments.len()
            invariant
                i <= self.segments@.len() <= 0xFFFF_FFFF,
                total == total_duration(self.segments@.take(i as int)),
                total <= i * 0xFFFF_FFFF,
            decreases self.segments@.len() - i,
        {
            assert(self.segments@.take(i + 1).drop_last() =~= self.segments@.take(i as int));
            total = total + self.segments[i].duration() as u64;
            i = i + 1;
        }
        assert(self.segments@.take(i as int) =~= self.segments@);
        total
    }
}

/// The `Ok` values of `s`, in order.
pub open spec fn ok_values<T, E>(s: Seq<Result<T, E>>) -> Seq<T>
    decreases s.len(),
{
    if s.len() == 0 {
        Seq::empty()
    } else {
        let rest = ok_values(s.drop_last());
        match s.last() {
            Ok(x) => rest.push(x),
            Err(_) => rest,
        }
    }
}

pub proof fn lemma_no_ok_values<T, E>(s: Seq<Result<T, E>>)
    ensures
        ok_values(s).len() == 0 <==> forall|i: int| 0 <= i < s.len() ==> (#[trigger] s[i]) is Err,
    decreases s.len(),
{
    if s.len() > 0 {
        lemma_no_ok_values(s.drop_last());
        if ok_values(s).len() == 0 {
            assert forall|i: int| 0 <= i < s.len() implies (#[trigger] s[i]) is Err by {
                if i < s.len() - 1 {
                    assert(s.drop_last()[i] == s[i]);
                }
            }
        } else {
            if s.last() is Err {
                let i = choose|i: int| 0 <= i < s.drop_last().len() && !(#[trigger] s.drop_last()[i] is Err);
                assert(s[i] == s.drop_last()[i]);
            }
        }
    }
}

/// The successes of a list of results, in order, or the last error if there is no success.
pub fn at_least_one_ok<T, E>(results: Vec<Result<T, E>>) -> (r: Result<Vec<T>, E>)
    requires
        results@.len() > 0,
    ensures
        r matches Ok(v) ==> v@ == ok_values(results@) && v@.len() > 0,
        r is Err ==> ok_values(results@).len() == 0 && r == Err::<Vec<T>, E>(
            results@.last()->Err_0,
        ),
        r is Ok <==> exists|i: int| 0 <= i < results@.len() && (#[trigger] results@[i]) is Ok,
{
    let ghost orig = results@;
    let ghost n = orig.len();
    let mut rs = results;
    let mut rev: Vec<Result<T, E>> = Vec::new();
    while rs.len() > 0
        invariant
            rev@.len() + rs@.len() == orig.len(),
            forall|i: int| 0 <= i < rs@.len() ==> rs@[i] == orig[i],
            forall|i: int| 0 <= i < rev@.len() ==> rev@[i] == orig[orig.len() - 1 - i],
        decreases rs@.len(),
    {
        let x = rs.pop().unwrap();
        rev.push(x);
    }
    let mut oks: Vec<T> = Vec::new();
    let mut error: Option<E> = None;
    while rev.len() > 0
        invariant
            rev@.len() <= n,
            n == orig.len(),
            n > 0,
            forall|i: int| 0 <= i < rev@.len() ==> rev@[i] == orig[n - 1 - i],
            oks@ == ok_values(orig.take(n - rev@.len())),
            rev@.len() < n && orig[n - 1 - rev@.len()] is Err ==> error == Some(
                orig[n - 1 - rev@.len()]->Err_0,
            ),
        decreases rev@.len(),
    {
        let ghost m = n - rev@.len();
        let x = rev.pop().unwrap();
        proof {
            assert(orig.take(m + 1).drop_last() =~= orig.take(m));
        }
        match x {
            Ok(v) => {
                oks.push(v);
            },
            Err(e) => {
                error = Some(e);
            },
        }
    }
    proof {
        assert(orig.take(n as int) =~= orig);
        lemma_no_ok_values(orig);
    }
    if oks.len() == 0 {
        match error {
            Some(e) => Err(e),
            None => {
                proof {
                    assert(orig[n - 1] is Err);
                }
                Ok(oks)
            },
        }
    } else {
        Ok(oks)
    }
}

/// A dodge inserted into a straight approach: drive `approach_distance` (in 1/120 unreal
/// units), dodge, then drive on. `score` is the ticks to the target if the car blitzes after
/// landing.
#[derive(Clone, Copy, Debug, PartialEq, Eq, Structural)]
pub struct StraightDodge {
    pub approach_distance: u64,
    pub dodge: Dodge1D,
    pub score: u32,
}

/// Searches for the best point to insert one forward dodge into a straight drive.
#[derive(Clone, Copy, Debug, PartialEq, Eq, Structural)]
pub struct StraightDodgeCalculator {
    pub start: CarState,
    pub target_loc: Vec2,
    pub target_time: Option<u32>,
    /// Dead time reserved for the maneuver after this route; the car coasts through it.
    pub end_chop: u32,
}

impl StraightDodgeCalculator {
    pub open spec fn wf(self) -> bool {
        &&& self.end_chop <= MAX_PLAN_TICKS
        &&& self.target_time matches Some(tt) ==> tt <= MAX_PLAN_TICKS
    }

    pub open spec fn approach_start(self) -> Car1D {
        car_for(self.start.to_2d_spec())
    }

    /// The approach after `k + 1` steps of driving.
    pub open spec fn approach_spec(self, k: nat) -> Car1D {
        self.approach_start().run_spec((DODGE_GRANULARITY * (k + 1)) as nat, true, true)
    }

    /// Distance to the target, in 1/120 unreal units.
    pub open spec fn target_traveled(self) -> int {
        len_spec(sub2_spec(self.target_loc, self.start.loc.to_2d_spec())) * 120
    }

    /// The car just after landing from a dodge begun at the end of `approach`.
    pub open spec fn landed_spec(self, approach: Car1D) -> Car1D {
        let d = dodge_spec(approach.speed as int);
        Car1D::new_spec(d.end_speed as int).with_boost_spec(approach.boost_ticks * 5 / 18)
    }

    /// A dodge begun at the end of `approach`, followed by `end_chop` ticks of coasting, if it
    /// finishes by the target time, lands short of the target, and (with a target time) does
    /// not pass the target early when coasting on. Its score is the ticks to the target if the
    /// car blitzes after landing.
    pub open spec fn evaluate_spec(self, approach: Car1D) -> Option<StraightDodge> {
        let d = dodge_spec(approach.speed as int);
        let landed = self.landed_spec(approach);
        let dodge_end = landed.run_spec(self.end_chop as nat, false, false);
        let total_time = approach.time + d.duration + self.end_chop;
        let total_dist = approach.dist + d.end_dist + dodge_end.dist;
        let target = self.target_traveled();
        if self.target_time matches Some(tt) && total_time > tt {
            None
        } else if total_dist >= target {
            None
        } else if self.target_time matches Some(tt) && total_dist + landed.run_spec(
            (tt - total_time) as nat,
            false,
            false,
        ).dist > target {
            None
        } else {
            let blitz = blitz_until(landed, target - total_dist, MAX_SIM_TICKS as nat);
            Some(
                StraightDodge {
                    approach_distance: approach.dist,
                    dodge: d,
                    score: (total_time + blitz.time) as u32,
                },
            )
        }
    }

    /// The search stops before step `k`: out of candidates, out of time, or the `k`-th
    /// candidate fails.
    pub open spec fn stops_at(self, k: nat) -> bool {
        k >= MAX_DODGE_CANDIDATES || (self.target_time matches Some(tt) && DODGE_GRANULARITY * k
            >= tt) || self.evaluate_spec(self.approach_spec(k)) is None
    }

    /// Number of candidates examined: the first step at which the search stops.
    pub open spec fn count_from(self, k: nat) -> nat
        decreases MAX_DODGE_CANDIDATES - k,
    {
        if k >= MAX_DODGE_CANDIDATES || self.stops_at(k) {
            k
        } else {
            self.count_from(k + 1)
        }
    }

    /// The lowest-scoring of the first `k` candidates; the earliest among equals.
    pub open spec fn best_upto(self, k: nat) -> Option<StraightDodge>
        decreases k,
    {
        if k == 0 {
            None
        } else {
            let prev = self.best_upto((k - 1) as nat);
            let c = self.evaluate_spec(self.approach_spec((k - 1) as nat));
            match (prev, c) {
                (Some(p), Some(x)) => if p.score <= x.score {
                    prev
                } else {
                    c
                },
                (None, _) => c,
                (_, None) => prev,
            }
        }
    }

    pub open spec fn best_spec(self) -> Option<StraightDodge> {
        self.best_upto(self.count_from(0))
    }

    pub proof fn lemma_best_speed(self, k: nat)
        ensures
            self.best_upto(k) matches Some(b) ==> b.dodge.end_speed <= CAR_MAX_SPEED,
        decreases k,
    {
        if k > 0 {
            self.lemma_best_speed((k - 1) as nat);
        }
    }

    /// The dodge begun at the end of `approach`, if it passes (see `evaluate_spec`).
    pub fn evaluate(&self, approach: &Car1D) -> (r: Option<StraightDodge>)
        requires
            self.wf(),
            approach.wf(),
            approach.time <= DODGE_GRANULARITY * MAX_DODGE_CANDIDATES,
        ensures
            r == self.evaluate_spec(*approach),
    {
        let d = forward_dodge(approach.speed);
        let landed = Car1D::new(d.end_speed as i64).with_boost(approach.boost());
        let mut dodge_end = landed;
        dodge_end.multi_step(self.end_chop, false, false);
        proof {
            crate::car1d::lemma_run_time(landed, self.end_chop as nat, false, false);
        }
        let total_time = approach.time + d.duration + self.end_chop;
        let (dx, dy) = sub2(self.target_loc, self.start.loc.to_2d());
        let target = length(dx, dy) * 120;
        assert(dodge_end.dist <= 1800 * 2300) by (nonlinear_arith)
            requires
                dodge_end.dist <= dodge_end.time * 2300,
                dodge_end.time <= 1800,
        ;
        assert(approach.dist <= 600 * 2300) by (nonlinear_arith)
            requires
                approach.dist <= approach.time * 2300,
                approach.time <= 600,
        ;
        let total_dist = approach.dist + d.end_dist + dodge_end.dist;
        match self.target_time {
            Some(tt) => {
                if total_time > tt {
                    return None;
                }
            },
            None => {},
        }
        if total_dist >= target {
            return None;
        }
        match self.target_time {
            Some(tt) => {
                let mut coast = landed;
                coast.multi_step(tt - total_time, false, false);
                proof {
                    crate::car1d::lemma_run_time(landed, (tt - total_time) as nat, false, false);
                }
                assert(coast.dist <= 1800 * 2300) by (nonlinear_arith)
                    requires
                        coast.dist <= coast.time * 2300,
                        coast.time <= 1800,
                ;
                if total_dist + coast.dist > target {
                    return None;
                }
            },
            None => {},
        }
        let blitz = blitz_to(landed, target - total_dist);
        Some(
            StraightDodge {
                approach_distance: approach.dist,
                dodge: d,
                score: total_time + blitz.time,
            },
        )
    }

    /// The best dodge: among the candidate points (one every `DODGE_GRANULARITY` ticks of
    /// approach, until the target time or the first point that fails), the one with the
    /// lowest score.
    pub fn best(&self) -> (r: Option<StraightDodge>)
        requires
            self.wf(),
        ensures
            r == self.best_spec(),
    {
        let start = Car1D::new(speed_of(self.start.vel.to_2d()) as i64).with_boost(
            self.start.boost,
        );
        assert(start == self.approach_start());
        let mut car = start;
        let mut best: Option<StraightDodge> = None;
        let mut k: u32 = 0;
        let mut stopped = false;
        while !stopped && k < MAX_DODGE_CANDIDATES
            invariant
                self.wf(),
                k <= MAX_DODGE_CANDIDATES,
                start == self.approach_start(),
                start.wf(),
                start.time == 0,
                car == start.run_spec((DODGE_GRANULARITY * k) as nat, true, true),
                car.wf(),
                car.time == DODGE_GRANULARITY * k,
                !stopped ==> self.count_from(0) == self.count_from(k as nat),
                stopped ==> self.count_from(0) == k,
                best == self.best_upto(k as nat),
            decreases MAX_DODGE_CANDIDATES - k, if stopped {
                0int
            } else {
                1int
            },
        {
            let out_of_time = match self.target_time {
                Some(tt) => car.time >= tt,
                None => false,
            };
            if out_of_time {
                assert(self.stops_at(k as nat));
                stopped = true;
            } else {
                let mut next = car;
                next.multi_step(DODGE_GRANULARITY, true, true);
                proof {
                    crate::car1d::lemma_run_add(
                        start,
                        (DODGE_GRANULARITY * k) as nat,
                        DODGE_GRANULARITY as nat,
                        true,
                        true,
                    );
                    assert((DODGE_GRANULARITY * k) as nat + DODGE_GRANULARITY as nat == (
                    DODGE_GRANULARITY * (k + 1)) as nat);
                    assert(next == self.approach_spec(k as nat));
                    crate::car1d::lemma_run_time(car, DODGE_GRANULARITY as nat, true, true);
                    assert(next.time == DODGE_GRANULARITY * (k + 1));
                }
                match self.evaluate(&next) {
                    Some(d) => {
                        assert(!self.stops_at(k as nat));
                        best = match best {
                            Some(b) => if b.score <= d.score {
                                Some(b)
                            } else {
                                Some(d)
                            },
                            None => Some(d),
                        };
                        car = next;
                        k = k + 1;
                    },
                    None => {
                        assert(self.stops_at(k as nat));
                        stopped = true;
                    },
                }
            }
        }
        best
    }
}

/// One straight segment from `start` to `target_loc`.
pub open spec fn single_straight(
    segs: Seq<Segment>,
    start: CarState2D,
    target_loc: Vec2,
    end_chop: int,
    mode: StraightMode,
) -> bool {
    segs == simple_segments_spec(start, target_loc, end_chop, mode)
}

pub open spec fn simple_segments_spec(start: CarState2D, target_loc: Vec2, end_chop: int, mode: StraightMode) -> Seq<Segment> {
    seq![Segment::Straight(straight_spec(start, target_loc, end_chop, mode))]
}

/// Straight from `start` for the dodge's approach distance towards the target (as fast as
/// possible, nothing chopped), the dodge from where that ends, then straight from where the
/// dodge lands to `target_loc`.
pub open spec fn dodge_segments_spec(
    start: CarState2D,
    b: StraightDodge,
    target_loc: Vec2,
    end_chop: int,
    mode: StraightMode,
) -> Seq<Segment> {
    let waypoint = move_toward_spec(start.loc, target_loc, b.approach_distance as int / 120);
    let before = straight_spec(start, waypoint, 0, StraightMode::Asap);
    let dodge = forward_dodge_spec(before.end, b.dodge, target_loc);
    let after = straight_spec(dodge.end, target_loc, end_chop, mode);
    seq![Segment::Straight(before), Segment::Dodge(dodge), Segment::Straight(after)]
}

pub open spec fn dodge_chain(
    segs: Seq<Segment>,
    start: CarState2D,
    dodge: Option<StraightDodge>,
    target_loc: Vec2,
    end_chop: int,
    mode: StraightMode,
) -> bool {
    dodge matches Some(b) && segs == dodge_segments_spec(start, b, target_loc, end_chop, mode)
}

/// The plan with the least total duration; the earliest among equals.
pub fn fastest(plans: Vec<RoutePlan>) -> (r: RoutePlan)
    requires
        plans@.len() > 0,
        forall|i: int| 0 <= i < plans@.len() ==> (#[trigger] plans@[i]).segments@.len() <= 0xFFFF_FFFF,
    ensures
        exists|i: int|
            0 <= i < plans@.len() && r.segments@ == (#[trigger] plans@[i]).segments@ && (forall|j: int|
                0 <= j < i ==> (#[trigger] plans@[j]).duration_spec() > r.duration_spec()),
        forall|j: int| 0 <= j < plans@.len() ==> r.duration_spec() <= (#[trigger] plans@[j]).duration_spec(),
{
    let mut best: usize = 0;
    let mut best_d = plans[0].duration();
    let mut i: usize = 1;
    while i < plans.len()
        invariant
            forall|i: int| 0 <= i < plans@.len() ==> (#[trigger] plans@[i]).segments@.len() <= 0xFFFF_FFFF,
            0 <= best < i <= plans@.len(),
            best_d == plans@[best as int].duration_spec(),
            forall|j: int| 0 <= j < best ==> (#[trigger] plans@[j]).duration_spec() > best_d,
            forall|j: int| 0 <= j < i ==> best_d <= (#[trigger] plans@[j]).duration_spec(),
        decreases plans@.len() - i,
    {
        let d = plans[i].duration();
        if d < best_d {
            best = i;
            best_d = d;
        }
        i = i + 1;
    }
    let mut plans = plans;
    let ghost before = plans@;
    let r = plans.swap_remove(best);
    assert(r == before[best as int]);
    r
}

/// The single straight segment from the start to the target.
pub fn plan_straight_simple(start: &CarState, target_loc: Vec2, end_chop: u32, mode: StraightMode) -> (r:
    Result<RoutePlan, RoutePlanError>)
    ensures
        !start.on_flat_ground_spec() ==> r == Err::<RoutePlan, RoutePlanError>(
            RoutePlanError::MustBeOnFlatGround,
        ),
        start.on_flat_ground_spec() && start.skidding_spec() ==> r == Err::<RoutePlan, RoutePlanError>(
            RoutePlanError::MustNotBeSkidding { recover_target_loc: target_loc },
        ),
        start.on_flat_ground_spec() && !start.skidding_spec() && !start.facing_spec(target_loc) ==> r
            == Err::<RoutePlan, RoutePlanError>(RoutePlanError::MustBeFacingTarget),
        r is Ok <==> start.on_flat_ground_spec() && !start.skidding_spec() && start.facing_spec(
            target_loc,
        ),
        r matches Ok(p) ==> single_straight(
            p.segments@,
            start.to_2d_spec(),
            target_loc,
            end_chop as int,
            mode,
        ),
{
    if !start.on_flat_ground() {
        return Err(RoutePlanError::MustBeOnFlatGround);
    }
    if start.is_skidding() {
        return Err(RoutePlanError::MustNotBeSkidding { recover_target_loc: target_loc });
    }
    if !start.is_facing(target_loc) {
        return Err(RoutePlanError::MustBeFacingTarget);
    }
    let segment = Straight::new(start.to_2d(), target_loc, end_chop, mode);
    let mut segments = Vec::new();
    segments.push(Segment::Straight(segment));
    Ok(RoutePlan { segments })
}

/// Straight, then a forward dodge at the best point found by `StraightDodgeCalculator`, then
/// straight again to the target.
pub fn plan_straight_with_dodge(calc: &StraightDodgeCalculator, mode: StraightMode) -> (r: Result<
    RoutePlan,
    RoutePlanError,
>)
    requires
        calc.wf(),
    ensures
        !calc.start.on_flat_ground_spec() ==> r == Err::<RoutePlan, RoutePlanError>(
            RoutePlanError::MustBeOnFlatGround,
        ),
        calc.start.on_flat_ground_spec() && calc.start.skidding_spec() ==> r == Err::<
            RoutePlan,
            RoutePlanError,
        >(RoutePlanError::MustNotBeSkidding { recover_target_loc: calc.target_loc }),
        calc.start.on_flat_ground_spec() && !calc.start.skidding_spec() && !calc.start.facing_spec(
            calc.target_loc,
        ) ==> r == Err::<RoutePlan, RoutePlanError>(RoutePlanError::MustBeFacingTarget),
        calc.start.on_flat_ground_spec() && !calc.start.skidding_spec() && calc.start.facing_spec(
            calc.target_loc,
        ) && calc.best_spec() is None ==> r == Err::<RoutePlan, RoutePlanError>(
            RoutePlanError::MovingTooFast,
        ),
        r is Ok <==> calc.start.on_flat_ground_spec() && !calc.start.skidding_spec()
            && calc.start.facing_spec(calc.target_loc) && calc.best_spec() is Some,
        r matches Ok(p) ==> dodge_chain(
            p.segments@,
            calc.start.to_2d_spec(),
            calc.best_spec(),
            calc.target_loc,
            calc.end_chop as int,
            mode,
        ),
{
    let start = &calc.start;
    if !start.on_flat_ground() {
        return Err(RoutePlanError::MustBeOnFlatGround);
    }
    if start.is_skidding() {
        return Err(RoutePlanError::MustNotBeSkidding { recover_target_loc: calc.target_loc });
    }
    if !start.is_facing(calc.target_loc) {
        return Err(RoutePlanError::MustBeFacingTarget);
    }
    let best = match calc.best() {
        Some(b) => b,
        None => {
            return Err(RoutePlanError::MovingTooFast);
        },
    };
    proof {
        calc.lemma_best_speed(calc.count_from(0));
    }
    let start2d = start.to_2d();
    let waypoint = move_toward(start2d.loc, calc.target_loc, best.approach_distance / 120);
    let before = Straight::new(start2d, waypoint, 0, StraightMode::Asap);
    let dodge = ForwardDodge::new(before.end, best.dodge, calc.target_loc);
    let after = Straight::new(dodge.end, calc.target_loc, calc.end_chop, mode);
    let mut segments = Vec::new();
    segments.push(Segment::Straight(before));
    segments.push(Segment::Dodge(dodge));
    segments.push(Segment::Straight(after));
    proof {
        assert(segments@ =~= dodge_segments_spec(
            start2d,
            best,
            calc.target_loc,
            calc.end_chop as int,
            mode,
        ));
    }
    Ok(RoutePlan { segments })
}

/// Plans a straight drive to `target_loc`, with or without one forward dodge, whichever is
/// faster.
#[derive(Clone, Copy, Debug, PartialEq, Eq, Structural)]
pub struct GroundStraightPlanner {
    pub target_loc: Vec2,
    pub target_time: Option<u32>,
    /// How early to hand over control before arriving, to leave the next behavior enough time
    /// to jump, shoot or position itself.
    pub end_chop: u32,
    pub mode: StraightMode,
}

impl GroundStraightPlanner {
    pub open spec fn wf(self) -> bool {
        &&& self.end_chop <= MAX_PLAN_TICKS
        &&& self.target_time matches Some(tt) ==> tt <= MAX_PLAN_TICKS
    }

    pub fn new(target_loc: Vec2, target_time: Option<u32>, end_chop: u32, mode: StraightMode) -> (r:
        GroundStraightPlanner)
        requires
            end_chop <= MAX_PLAN_TICKS,
            target_time matches Some(tt) ==> tt <= MAX_PLAN_TICKS,
        ensures
            r == (GroundStraightPlanner { target_loc, target_time, end_chop, mode }),
            r.wf(),
    {
        GroundStraightPlanner { target_loc, target_time, end_chop, mode }
    }

    /// The plain straight, or the dodge plan when one was found and it is strictly faster.
    pub open spec fn planned_spec(self, start: CarState) -> Seq<Segment> {
        let s2 = start.to_2d_spec();
        let simple = simple_segments_spec(s2, self.target_loc, self.end_chop as int, self.mode);
        match self.calculator(start).best_spec() {
            Some(b) => {
                let d = dodge_segments_spec(s2, b, self.target_loc, self.end_chop as int, self.mode);
                if total_duration(d) < total_duration(simple) {
                    d
                } else {
                    simple
                }
            },
            None => simple,
        }
    }

    pub open spec fn calculator(self, start: CarState) -> StraightDodgeCalculator {
        StraightDodgeCalculator {
            start,
            target_loc: self.target_loc,
            target_time: self.target_time,
            end_chop: self.end_chop,
        }
    }

    /// Tries the plain straight drive and the drive with one dodge, and keeps the faster
    /// (the plain one on a tie). The first segment always starts from `start` exactly.
    pub fn plan(&self, start: &CarState) -> (r: Result<RoutePlan, RoutePlanError>)
        requires
            self.wf(),
        ensures
            !start.on_flat_ground_spec() ==> r == Err::<RoutePlan, RoutePlanError>(
                RoutePlanError::MustBeOnFlatGround,
            ),
            start.on_flat_ground_spec() && start.skidding_spec() ==> r == Err::<
                RoutePlan,
                RoutePlanError,
            >(RoutePlanError::MustNotBeSkidding { recover_target_loc: self.target_loc }),
            start.on_flat_ground_spec() && !start.skidding_spec() && !start.facing_spec(
                self.target_loc,
            ) ==> r == Err::<RoutePlan, RoutePlanError>(RoutePlanError::MustBeFacingTarget),
            r is Ok <==> start.on_flat_ground_spec() && !start.skidding_spec() && start.facing_spec(
                self.target_loc,
            ),
            r matches Ok(p) ==> p.segments@ == self.planned_spec(*start),
            r matches Ok(p) ==> p.segments@.len() > 0 && p.first_start() == start.to_2d_spec(),
            r matches Ok(p) ==> p.duration_spec() <= straight_duration_spec(
                start.to_2d_spec(),
                self.target_loc,
                self.end_chop as int,
            ),
            r matches Ok(p) ==> single_straight(
                p.segments@,
                start.to_2d_spec(),
                self.target_loc,
                self.end_chop as int,
                self.mode,
            ) || dodge_chain(
                p.segments@,
                start.to_2d_spec(),
                self.calculator(*start).best_spec(),
                self.target_loc,
                self.end_chop as int,
                self.mode,
            ),
            r matches Ok(p) ==> (self.calculator(*start).best_spec() is None ==> single_straight(
                p.segments@,
                start.to_2d_spec(),
                self.target_loc,
                self.end_chop as int,
                self.mode,
            )),
    {
        if !start.on_flat_ground() {
            return Err(RoutePlanError::MustBeOnFlatGround);
        }
        if start.is_skidding() {
            return Err(RoutePlanError::MustNotBeSkidding { recover_target_loc: self.target_loc });
        }
        let simple = plan_straight_simple(start, self.target_loc, self.end_chop, self.mode);
        let calc = StraightDodgeCalculator {
            start: *start,
            target_loc: self.target_loc,
            target_time: self.target_time,
            end_chop: self.end_chop,
        };
        assert(calc == self.calculator(*start));
        let with_dodge = plan_straight_with_dodge(&calc, self.mode);
        let ghost g_simple = simple;
        let ghost g_dodge = with_dodge;
        let mut results = Vec::new();
        results.push(simple);
        results.push(with_dodge);
        assert(results@[0] == g_simple && results@[1] == g_dodge);
        let oks = match at_least_one_ok(results) {
            Ok(v) => v,
            Err(e) => {
                proof {
                    if g_simple is Ok {
                        assert(results@[0] is Ok);
                    }
                }
                return Err(e);
            },
        };
        proof {
            let rs = seq![g_simple, g_dodge];
            assert(results@ =~= rs);
            assert(rs.drop_last() =~= seq![g_simple]);
            assert(seq![g_simple].drop_last() =~= Seq::<Result<RoutePlan, RoutePlanError>>::empty());
            let e = Seq::<Result<RoutePlan, RoutePlanError>>::empty();
            assert(ok_values(e) == Seq::<RoutePlan>::empty());
            let one = ok_values(seq![g_simple]);
            assert(one == (match g_simple {
                Ok(x) => Seq::<RoutePlan>::empty().push(x),
                Err(_) => Seq::<RoutePlan>::empty(),
            }));
            assert(oks@ == (match g_dodge {
                Ok(x) => one.push(x),
                Err(_) => one,
            }));
            assert forall|i: int| 0 <= i < oks@.len() implies (#[trigger] oks@[i]).segments@.len()
                <= 16 && oks@[i].first_start() == start.to_2d_spec() by {}
            assert(g_simple is Ok);
            let p0 = g_simple->Ok_0;
            assert(oks@[0] == p0);
            let segs = p0.segments@;
            assert(segs.drop_last() =~= Seq::<Segment>::empty());
            assert(total_duration(Seq::<Segment>::empty()) == 0);
            assert(total_duration(segs) == segs[0].duration_spec());
            assert(p0.duration_spec() == straight_duration_spec(
                start.to_2d_spec(),
                self.target_loc,
                self.end_chop as int,
            ));
        }
        let ghost goks = oks@;
        let out = fastest(oks);
        proof {
            let s2 = start.to_2d_spec();
            let sim = simple_segments_spec(s2, self.target_loc, self.end_chop as int, self.mode);
            let i = choose|i: int|
                0 <= i < goks.len() && out.segments@ == (#[trigger] goks[i]).segments@ && (forall|j: int|
                    0 <= j < i ==> (#[trigger] goks[j]).duration_spec() > out.duration_spec());
            assert(goks[0].segments@ == sim);
            if g_dodge is Ok {
                let b = calc.best_spec()->Some_0;
                let d = dodge_segments_spec(s2, b, self.target_loc, self.end_chop as int, self.mode);
                assert(goks.len() == 2);
                assert(goks[1].segments@ == d);
                assert(out.duration_spec() <= goks[0].duration_spec());
                assert(out.duration_spec() <= goks[1].duration_spec());
                if i == 0 {
                    assert(out.segments@ == sim);
                } else {
                    assert(goks[0].duration_spec() > out.duration_spec());
                    assert(out.segments@ == d);
                }
            } else {
                assert(goks.len() == 1);
                assert(calc.best_spec() is None);
            }
        }
        Ok(out)
    }
}

/// The same search with a different `end_chop`.
pub open spec fn with_end_chop(calc: StraightDodgeCalculator, end_chop: u32) -> StraightDodgeCalculator {
    StraightDodgeCalculator { end_chop, ..calc }
}

proof fn lemma_approach_ok(calc: StraightDodgeCalculator, k: nat)
    requires
        k < MAX_DODGE_CANDIDATES,
    ensures
        calc.approach_spec(k).wf(),
        calc.approach_spec(k).time == DODGE_GRANULARITY * (k + 1),
{
    let s = calc.approach_start();
    assert(s.wf() && s.time == 0);
    assert(DODGE_GRANULARITY * (k + 1) <= 600);
    crate::car1d::lemma_run_time(s, (DODGE_GRANULARITY * (k + 1)) as nat, true, true);
}

/// For one candidate dodge point (the same approach), more end chop can only turn a passing
/// dodge into a failing one, and never lowers its score: with no target time, if the larger end
/// chop passes, so does the smaller, with a score no higher.
pub proof fn lemma_candidate_monotone(calc: StraightDodgeCalculator, chop2: u32, a: Car1D)
    requires
        calc.wf(),
        calc.target_time is None,
        calc.end_chop <= chop2 <= MAX_PLAN_TICKS,
        a.wf(),
        a.time <= DODGE_GRANULARITY * MAX_DODGE_CANDIDATES,
    ensures
        with_end_chop(calc, chop2).evaluate_spec(a) matches Some(d2) ==> calc.evaluate_spec(a) matches Some(
            d1,
        ) && d1.score <= d2.score,
{
    let calc2 = with_end_chop(calc, chop2);
    let l = calc.landed_spec(a);
    assert(l == calc2.landed_spec(a));
    let d = dodge_spec(a.speed as int);
    assert(l.wf() && l.time == 0);
    let e1 = calc.end_chop as nat;
    let e2 = chop2 as nat;
    crate::car1d::lemma_coast_gap(l, e1, e2);
    let c1 = l.run_spec(e1, false, false);
    let c2 = l.run_spec(e2, false, false);
    let target = calc.target_traveled();
    assert(target == calc2.target_traveled());
    let td1 = a.dist + d.end_dist + c1.dist;
    let td2 = a.dist + d.end_dist + c2.dist;
    if calc2.evaluate_spec(a) is Some {
        assert(td2 < target);
        assert(td1 < target);
        let r1 = target - td1;
        let r2 = target - td2;
        let t1 = lemma_blitz_until(l, r1, MAX_SIM_TICKS as nat);
        let t2 = lemma_blitz_until(l, r2, MAX_SIM_TICKS as nat);
        crate::car1d::lemma_run_time(l, t1, true, true);
        crate::car1d::lemma_run_time(l, t2, true, true);
        let delta = (e2 - e1) as nat;
        if t2 + delta < t1 {
            crate::car1d::lemma_throttle_gap(l, t2, delta, true);
            assert(l.run_spec(t2 + delta, true, true).dist < r1);
            assert(delta * l.speed >= c2.dist - c1.dist);
        }
        assert(t2 + delta >= t1);
        assert(calc.evaluate_spec(a) is Some);
    }
}

proof fn lemma_stops_monotone(calc: StraightDodgeCalculator, chop2: u32, k: nat)
    requires
        calc.wf(),
        calc.target_time is None,
        calc.end_chop <= chop2 <= MAX_PLAN_TICKS,
    ensures
        calc.stops_at(k) ==> with_end_chop(calc, chop2).stops_at(k),
{
    let calc2 = with_end_chop(calc, chop2);
    assert(calc.approach_spec(k) == calc2.approach_spec(k));
    if k < MAX_DODGE_CANDIDATES {
        lemma_approach_ok(calc, k);
        lemma_candidate_monotone(calc, chop2, calc.approach_spec(k));
    }
}

proof fn lemma_count_at_least(calc: StraightDodgeCalculator, k: nat)
    ensures
        calc.count_from(k) >= k,
    decreases MAX_DODGE_CANDIDATES - k,
{
    if !(k >= MAX_DODGE_CANDIDATES || calc.stops_at(k)) {
        lemma_count_at_least(calc, k + 1);
    }
}

proof fn lemma_count_monotone(calc: StraightDodgeCalculator, chop2: u32, k: nat)
    requires
        calc.wf(),
        calc.target_time is None,
        calc.end_chop <= chop2 <= MAX_PLAN_TICKS,
    ensures
        with_end_chop(calc, chop2).count_from(k) <= calc.count_from(k),
    decreases MAX_DODGE_CANDIDATES - k,
{
    let calc2 = with_end_chop(calc, chop2);
    lemma_stops_monotone(calc, chop2, k);
    lemma_count_at_least(calc, k);
    if !(k >= MAX_DODGE_CANDIDATES || calc2.stops_at(k)) {
        lemma_count_monotone(calc, chop2, k + 1);
    }
}

proof fn lemma_before_count(calc: StraightDodgeCalculator, k: nat, j: nat)
    requires
        k <= j < calc.count_from(k),
    ensures
        !calc.stops_at(j),
    decreases j - k,
{
    if j > k {
        lemma_before_count(calc, k + 1, j);
    }
}

/// The best of the first `k` candidates, when all of them pass, is one of them and scores no
/// more than any of them.
proof fn lemma_best_is_min(calc: StraightDodgeCalculator, k: nat)
    requires
        forall|j: nat| j < k ==> (#[trigger] calc.evaluate_spec(calc.approach_spec(j))) is Some,
    ensures
        k > 0 ==> calc.best_upto(k) is Some,
        calc.best_upto(k) matches Some(b) ==> (exists|j: nat|
            j < k && calc.evaluate_spec(calc.approach_spec(j)) == Some(b)) && (forall|j: nat|
            j < k ==> b.score <= (#[trigger] calc.evaluate_spec(calc.approach_spec(j)))->Some_0.score),
    decreases k,
{
    if k > 0 {
        lemma_best_is_min(calc, (k - 1) as nat);
        let c = calc.evaluate_spec(calc.approach_spec((k - 1) as nat));
        assert(c is Some);
    }
}

/// More reserved recovery time never makes the chosen dodge finish sooner. With the same start
/// and target and no target time, if a larger `end_chop` still finds a dodge, the smaller
/// `end_chop` finds one too, and its score is no higher.
pub proof fn lemma_end_chop_monotone(calc: StraightDodgeCalculator, chop2: u32)
    requires
        calc.wf(),
        calc.target_time is None,
        calc.end_chop <= chop2 <= MAX_PLAN_TICKS,
    ensures
        with_end_chop(calc, chop2).best_spec() matches Some(b2) ==> calc.best_spec() matches Some(b1)
            && b1.score <= b2.score,
{
    let calc2 = with_end_chop(calc, chop2);
    let k1 = calc.count_from(0);
    let k2 = calc2.count_from(0);
    lemma_count_monotone(calc, chop2, 0);
    assert forall|j: nat| j < k1 implies (#[trigger] calc.evaluate_spec(calc.approach_spec(j))) is Some by {
        lemma_before_count(calc, 0, j);
    }
    assert forall|j: nat| j < k2 implies (#[trigger] calc2.evaluate_spec(calc2.approach_spec(j))) is Some by {
        lemma_before_count(calc2, 0, j);
    }
    lemma_best_is_min(calc, k1);
    lemma_best_is_min(calc2, k2);
    if calc2.best_spec() is Some {
        let b2 = calc2.best_spec()->Some_0;
        let j = choose|j: nat| j < k2 && calc2.evaluate_spec(calc2.approach_spec(j)) == Some(b2);
        assert(calc.approach_spec(j) == calc2.approach_spec(j));
        lemma_before_count(calc2, 0, j);
        lemma_approach_ok(calc, j);
        lemma_candidate_monotone(calc, chop2, calc.approach_spec(j));
        assert(k1 > 0);
        let b1 = calc.best_spec()->Some_0;
        assert(b1.score <= calc.evaluate_spec(calc.approach_spec(j))->Some_0.score);
    }
}

} // verus!
