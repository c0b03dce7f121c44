use crate::car1d::{Car1D, MAX_SIM_TICKS};
use crate::geometry::{dot2, dot2_spec, sub2, sub2_spec, Vec2, Vec3};
use crate::routing::{len_spec, length, vec2_int, CarState};
use crate::trajectory::{at_time_or_last_spec, BallFrame, BallTrajectory};
use crate::field::{wall_for_ray, wall_for_ray_spec, Wall};
use vstd::prelude::*;

verus! {

/// Ticks between the samples of the interception race (an eighth of a second).
pub const RACE_STEP_TICKS: u32 = 15;

/// Extra ticks charged for turning all the way around before an intercept.
pub const TURN_PENALTY_TICKS: u32 = 60;

/// Possession when only one side, or neither, can reach the ball: pretend we own the ball
/// so that we go for it rather than wait for the other side (five seconds).
pub const POSSESSION_SATURATED: i64 = 600;

/// Possession margin below which the ball is contested (half a second).
pub const POSSESSION_CONTESTABLE: i64 = 60;

/// Ticks between the samples of the impending-goal check (half a second).
pub const GOAL_CHECK_STEP_TICKS: u32 = 60;

/// Radius of the ball, in unreal units.
pub const BALL_RADIUS: i64 = 93;

/// How far past the goal line the conservative goal test wants the ball.
pub const CONSERVATIVE_GOAL_MARGIN: i64 = 100;

/// A vehicle in the snapshot. `forward` is the nose direction; `pitch` and `roll` are in
/// milliradians.
#[derive(Clone, Copy, Debug, PartialEq, Eq, Structural)]
pub struct CarInfo {
    pub loc: Vec3,
    pub vel: Vec3,
    pub forward: Vec2,
    pub pitch: i16,
    pub roll: i16,
    pub on_ground: bool,
    pub double_jumped: bool,
    /// Angular velocity, in milliradians per second.
    pub ang_vel: Vec3,
    /// The roof's direction (conventionally of length 1000).
    pub roof: Vec3,
    pub boost: u8,
}

impl CarInfo {
    pub open spec fn state_spec(self) -> CarState {
        CarState {
            loc: self.loc,
            vel: self.vel,
            forward: self.forward,
            pitch: self.pitch,
            roll: self.roll,
            on_ground: self.on_ground,
            boost: self.boost,
        }
    }

    pub fn state(&self) -> (r: CarState)
        ensures
            r == self.state_spec(),
    {
        CarState {
            loc: self.loc,
            vel: self.vel,
            forward: self.forward,
            pitch: self.pitch,
            roll: self.roll,
            on_ground: self.on_ground,
            boost: self.boost,
        }
    }
}

/// A goal on the field: the centre of its goal line, and how wide it is. The goal's back is
/// on the side of the field that `center.y` points to.
#[derive(Clone, Copy, Debug, PartialEq, Eq, Structural)]
pub struct Goal {
    pub center: Vec2,
    pub half_width: i16,
}

impl Goal {
    /// How far `loc` lies past the goal line, into the goal.
    pub open spec fn depth_spec(self, loc: Vec3) -> int {
        if self.center.y >= 0 {
            loc.y - self.center.y
        } else {
            self.center.y - loc.y
        }
    }

    pub open spec fn scored_spec(self, loc: Vec3) -> bool {
        self.depth_spec(loc) >= BALL_RADIUS
    }

    pub open spec fn scored_conservative_spec(self, loc: Vec3) -> bool {
        &&& self.depth_spec(loc) >= BALL_RADIUS + CONSERVATIVE_GOAL_MARGIN
        &&& -(self.half_width - CONSERVATIVE_GOAL_MARGIN) < loc.x < self.half_width
            - CONSERVATIVE_GOAL_MARGIN
    }

    fn depth(&self, loc: Vec3) -> (r: i64)
        ensures
            r == self.depth_spec(loc),
    {
        if self.center.y >= 0 {
            loc.y as i64 - self.center.y as i64
        } else {
            self.center.y as i64 - loc.y as i64
        }
    }

    /// The whole ball is past the goal line.
    pub fn ball_is_scored(&self, loc: Vec3) -> (r: bool)
        ensures
            r == self.scored_spec(loc),
    {
        self.depth(loc) >= BALL_RADIUS
    }

    /// The ball is well past the goal line and well between the posts.
    pub fn ball_is_scored_conservative(&self, loc: Vec3) -> (r: bool)
        ensures
            r == self.scored_conservative_spec(loc),
    {
        let hw = self.half_width as i64 - CONSERVATIVE_GOAL_MARGIN;
        self.depth(loc) >= BALL_RADIUS + CONSERVATIVE_GOAL_MARGIN && -hw < loc.x as i64
            && (loc.x as i64) < hw
    }

    /// Distance of `y` from the goal line is under `limit`.
    pub open spec fn y_within_spec(self, y: int, limit: int) -> bool {
        let d = y - self.center.y;
        -limit < d < limit
    }

    pub fn is_y_within_range(&self, y: i16, limit: i64) -> (r: bool)
        requires
            0 <= limit <= 100_000,
        ensures
            r == self.y_within_spec(y as int, limit as int),
    {
        let d = y as i64 - self.center.y as i64;
        -limit < d && d < limit
    }
}

/// A candidate interception: when (ticks from now), where the ball is then, and the car's
/// assumed location and speed at contact.
#[derive(Clone, Copy, Debug, PartialEq, Eq, Structural)]
pub struct NaiveIntercept {
    pub time: u32,
    pub ball_loc: Vec3,
    pub ball_vel: Vec3,
    pub car_loc: Vec3,
    pub car_speed: u32,
}

/// Speed of `v` in the direction of `d`, or zero if that is not positive.
pub open spec fn speed_along_spec(v: (int, int), d: (int, int)) -> int {
    let l = len_spec(d);
    let p = dot2_spec(v, d);
    if p > 0 && l > 0 {
        p / l
    } else {
        0
    }
}

fn speed_along(v: Vec2, d: (i64, i64)) -> (r: i64)
    requires
        -65536 <= d.0 <= 65536,
        -65536 <= d.1 <= 65536,
    ensures
        r == speed_along_spec(vec2_int(v), (d.0 as int, d.1 as int)),
        0 <= r,
{
    let l = length(d.0, d.1) as i64;
    let p = dot2((v.x as i64, v.y as i64), d);
    if p > 0 && l > 0 {
        proof {
            vstd::arithmetic::div_mod::lemma_div_pos_is_pos(p as int, l as int);
        }
        p / l
    } else {
        0
    }
}

pub open spec fn max_int(a: int, b: int) -> int {
    if a >= b {
        a
    } else {
        b
    }
}

/// Frames between two samples taken every `step` ticks (at least one).
pub open spec fn stride_spec(s: Seq<BallFrame>, step: int) -> int {
    let dt = s[0].dt as int;
    if dt == 0 || step / dt == 0 {
        1
    } else {
        step / dt
    }
}

/// Number of samples when every `stride`-th frame is taken.
pub open spec fn samples_spec(s: Seq<BallFrame>, stride: int) -> int {
    (s.len() + stride - 1) / stride
}

/// Starting speed of a car racing to the ball: the larger of its speed towards the ball and its
/// speed along the ball's direction of travel, and not negative.
pub open spec fn start_speed_spec(car: CarInfo, s: Seq<BallFrame>) -> int {
    let v = vec2_int(car.vel.to_2d_spec());
    max_int(
        speed_along_spec(v, sub2_spec(s[0].loc.to_2d_spec(), car.loc.to_2d_spec())),
        speed_along_spec(v, vec2_int(s[0].vel.to_2d_spec())),
    )
}

pub open spec fn race_start(car: CarInfo, s: Seq<BallFrame>) -> Car1D {
    Car1D::new_spec(start_speed_spec(car, s)).with_boost_spec(car.boost as int)
}

pub open spec fn race_step(s: Seq<BallFrame>) -> int {
    stride_spec(s, RACE_STEP_TICKS as int) * s[0].dt
}

/// The racing car at the `k`-th sample.
pub open spec fn race_car(car: CarInfo, s: Seq<BallFrame>, k: nat) -> Car1D {
    race_start(car, s).run_spec((k * race_step(s)) as nat, true, true)
}

/// At the `k`-th sample the car has covered the straight distance to where the ball is then.
pub open spec fn race_reached(car: CarInfo, s: Seq<BallFrame>, k: nat) -> bool {
    let f = s[k * stride_spec(s, RACE_STEP_TICKS as int)];
    race_car(car, s, k).dist >= 120 * len_spec(sub2_spec(car.loc.to_2d_spec(), f.loc.to_2d_spec()))
}

/// The first sample, from the `k`-th on, at which the car reaches the ball, if the forecast and
/// the simulation span last that long.
pub open spec fn race_first_from(car: CarInfo, s: Seq<BallFrame>, k: nat) -> Option<nat>
    decreases samples_spec(s, stride_spec(s, RACE_STEP_TICKS as int)) - k,
{
    if k >= samples_spec(s, stride_spec(s, RACE_STEP_TICKS as int)) {
        None
    } else if race_reached(car, s, k) {
        Some(k)
    } else if (k + 1) * race_step(s) > MAX_SIM_TICKS {
        None
    } else {
        race_first_from(car, s, k + 1)
    }
}

pub open spec fn min_int(a: int, b: int) -> int {
    if a <= b {
        a
    } else {
        b
    }
}

/// Extra ticks for turning from `forward` to `d`: nothing straight ahead, all of
/// `TURN_PENALTY_TICKS` straight behind, in proportion to one minus the cosine in between.
pub open spec fn turn_penalty_spec(forward: (int, int), d: (int, int)) -> int {
    let lf = len_spec(forward);
    let ld = len_spec(d);
    let p = dot2_spec(forward, d);
    if lf == 0 || ld == 0 {
        0
    } else {
        let c = if p >= 0 {
            min_int(p * 1000 / (lf * ld), 1000)
        } else {
            -min_int((-p) * 1000 / (lf * ld), 1000)
        };
        TURN_PENALTY_TICKS * (1000 - c) / 2000
    }
}

pub open spec fn len3_spec(v: Vec3) -> int {
    choose|q: int| #[trigger] crate::geometry::is_isqrt(v.x * v.x + v.y * v.y + v.z * v.z, q)
}

/// Where `car` first meets the ball if it blitzes straight at it: the first race sample it
/// reaches, delayed by the turn penalty, looked up in the forecast.
pub open spec fn blitz_intercept_spec(car: CarInfo, s: Seq<BallFrame>) -> Option<NaiveIntercept> {
    match race_first_from(car, s, 0) {
        None => None,
        Some(k) => {
            let f = s[k * stride_spec(s, RACE_STEP_TICKS as int)];
            let pen = turn_penalty_spec(
                vec2_int(car.forward),
                sub2_spec(f.loc.to_2d_spec(), car.loc.to_2d_spec()),
            );
            let ball = at_time_or_last_spec(s, f.t + pen);
            Some(
                NaiveIntercept {
                    time: (ball.t - s[0].t) as u32,
                    ball_loc: ball.loc,
                    ball_vel: ball.vel,
                    car_loc: ball.loc,
                    car_speed: len3_spec(ball.vel) as u32,
                },
            )
        },
    }
}

/// The earliest intercept among the first `k` enemies, with the enemy's index; the first
/// enemy among equals.
pub open spec fn best_enemy_upto(enemies: Seq<CarInfo>, s: Seq<BallFrame>, k: nat) -> Option<
    (usize, NaiveIntercept),
>
    decreases k,
{
    if k == 0 {
        None
    } else {
        let prev = best_enemy_upto(enemies, s, (k - 1) as nat);
        match blitz_intercept_spec(enemies[k - 1], s) {
            None => prev,
            Some(i) => match prev {
                Some(p) => if p.1.time <= i.time {
                    prev
                } else {
                    Some(((k - 1) as usize, i))
                },
                None => Some(((k - 1) as usize, i)),
            },
        }
    }
}

/// Ticks by which I reach the ball before the quickest enemy; saturated when either side
/// cannot reach it at all.
pub open spec fn possession_spec(me: Option<NaiveIntercept>, enemy: Option<(usize, NaiveIntercept)>) -> int {
    match (me, enemy) {
        (Some(m), Some(e)) => e.1.time - m.time,
        _ => POSSESSION_SATURATED as int,
    }
}

/// Without an intercept on both sides, possession is saturated: in particular when nobody can
/// reach the ball, and when only I can.
pub proof fn lemma_possession_saturates(me: Option<NaiveIntercept>, enemy: Option<(usize, NaiveIntercept)>)
    requires
        me is None || enemy is None,
    ensures
        possession_spec(me, enemy) == POSSESSION_SATURATED,
{
}

pub proof fn lemma_len3_bound(v: Vec3)
    ensures
        0 <= len3_spec(v) <= 60000,
{
    let n = v.x * v.x + v.y * v.y + v.z * v.z;
    assert(0 <= n <= 3 * 32768 * 32768) by (nonlinear_arith)
        requires
            n == v.x * v.x + v.y * v.y + v.z * v.z,
            -32768 <= v.x <= 32767,
            -32768 <= v.y <= 32767,
            -32768 <= v.z <= 32767,
    ;
    let r = crate::geometry::isqrt_ghost(n);
    assert(crate::geometry::is_isqrt(n, r));
    assert(exists|q: int| #[trigger] crate::geometry::is_isqrt(n, q));
    crate::routing::lemma_isqrt_unique(n, len3_spec(v), r);
    if r > 60000 {
        assert(r * r > 60000 * 60000) by (nonlinear_arith)
            requires
                r > 60000,
        ;
    }
}

/// Floor of the length of a spatial vector.
pub fn length3(v: Vec3) -> (r: u32)
    ensures
        r as int == len3_spec(v),
        r <= 60000,
{
    let (x, y, z) = (v.x as i64, v.y as i64, v.z as i64);
    assert(0 <= x * x + y * y + z * z <= 3 * 32768 * 32768) by (nonlinear_arith)
        requires
            -32768 <= x <= 32767,
            -32768 <= y <= 32767,
            -32768 <= z <= 32767,
    ;
    assert(x * x <= 32768 * 32768 && y * y <= 32768 * 32768 && z * z <= 32768 * 32768)
        by (nonlinear_arith)
        requires
            -32768 <= x <= 32767,
            -32768 <= y <= 32767,
            -32768 <= z <= 32767,
    ;
    let n = x * x + y * y + z * z;
    let r = crate::geometry::isqrt(n as u64);
    proof {
        let q = len3_spec(v);
        assert(crate::geometry::is_isqrt(n as int, r as int));
        crate::routing::lemma_isqrt_unique(n as int, q, r as int);
        if r > 60000 {
            assert(60001 * 60001 <= r * r) by (nonlinear_arith)
                requires
                    r >= 60001,
            ;
        }
    }
    r as u32
}

/// Extra ticks for turning from `forward` to `d` (see `turn_penalty_spec`).
pub fn turn_penalty_pub(forward: Vec2, d: (i64, i64)) -> (r: u32)
    requires
        -65536 <= d.0 <= 65536,
        -65536 <= d.1 <= 65536,
    ensures
        r as int == turn_penalty_spec(vec2_int(forward), (d.0 as int, d.1 as int)),
        r <= TURN_PENALTY_TICKS,
{
    turn_penalty(forward, d)
}

fn turn_penalty(forward: Vec2, d: (i64, i64)) -> (r: u32)
    requires
        -65536 <= d.0 <= 65536,
        -65536 <= d.1 <= 65536,
    ensures
        r as int == turn_penalty_spec(vec2_int(forward), (d.0 as int, d.1 as int)),
        r <= TURN_PENALTY_TICKS,
{
    let lf = length(forward.x as i64, forward.y as i64) as i64;
    let ld = length(d.0, d.1) as i64;
    let p = dot2((forward.x as i64, forward.y as i64), d);
    if lf == 0 || ld == 0 {
        return 0;
    }
    assert(-4295098368 <= p <= 4295098368) by (nonlinear_arith)
        requires
            p == forward.x * d.0 + forward.y * d.1,
            -32768 <= forward.x <= 32767,
            -32768 <= forward.y <= 32767,
            -65536 <= d.0 <= 65536,
            -65536 <= d.1 <= 65536,
    ;
    assert(0 < lf * ld <= 92682 * 92682) by (nonlinear_arith)
        requires
            0 < lf <= 92682,
            0 < ld <= 92682,
    ;
    let m = lf * ld;
    let c: i64 = if p >= 0 {
        let q = p * 1000 / m;
        if q <= 1000 {
            q
        } else {
            1000
        }
    } else {
        let q = (-p) * 1000 / m;
        if q <= 1000 {
            -q
        } else {
            -1000
        }
    };
    (TURN_PENALTY_TICKS as i64 * (1000 - c) / 2000) as u32
}

/// Where `car` first meets the ball if it blitzes straight at it (see `blitz_intercept_spec`).
pub fn simulate_ball_blitz(traj: &BallTrajectory, car: &CarInfo) -> (r: Option<NaiveIntercept>)
    requires
        traj.wf(),
    ensures
        r == blitz_intercept_spec(*car, traj@),
{
    let s0 = traj.start();
    let dt0 = s0.dt;
    let stride: usize = if dt0 == 0 || RACE_STEP_TICKS / dt0 == 0 {
        1
    } else {
        (RACE_STEP_TICKS / dt0) as usize
    };
    let ghost gs = traj@;
    assert(stride == stride_spec(gs, RACE_STEP_TICKS as int));
    assert(stride <= 15) by {
        if dt0 > 0 && RACE_STEP_TICKS / dt0 > 0 {
            vstd::arithmetic::div_mod::lemma_div_is_ordered_by_denominator(15, 1, dt0 as int);
        }
    }
    assert(stride as u64 * dt0 as u64 <= 15 * 0xFFFF_FFFF) by (nonlinear_arith)
        requires
            stride <= 15,
            dt0 <= 0xFFFF_FFFF,
    ;
    let step: u64 = stride as u64 * dt0 as u64;
    assert(step == race_step(gs)) by (nonlinear_arith)
        requires
            step == stride * dt0,
            dt0 == gs[0].dt,
            stride == stride_spec(gs, RACE_STEP_TICKS as int),
    ;
    let v = car.vel.to_2d();
    let to_ball = sub2(s0.loc.to_2d(), car.loc.to_2d());
    let a = speed_along(v, to_ball);
    let b = speed_along(v, (s0.vel.x as i64, s0.vel.y as i64));
    let start_speed = if a >= b {
        a
    } else {
        b
    };
    let start = Car1D::new(start_speed).with_boost(car.boost);
    let n = traj.len();
    let samples = (n - 1) / stride + 1;
    proof {
        let (ni, fi) = (n as int, stride as int);
        let (q0, r0) = ((ni - 1) / fi, (ni - 1) % fi);
        vstd::arithmetic::div_mod::lemma_fundamental_div_mod(ni - 1, fi);
        vstd::arithmetic::div_mod::lemma_mod_pos_bound(ni - 1, fi);
        assert((q0 + 1) * fi == fi * q0 + fi) by (nonlinear_arith);
        vstd::arithmetic::div_mod::lemma_fundamental_div_mod_converse(ni + fi - 1, fi, q0 + 1, r0);
        assert(samples == samples_spec(gs, stride as int));
    }
    let mut sim = start;
    let mut k: usize = 0;
    let mut found: Option<usize> = None;
    while k < samples
        invariant
            traj.wf(),
            gs == traj@,
            n == gs.len(),
            stride >= 1,
            stride == stride_spec(gs, RACE_STEP_TICKS as int),
            step == race_step(gs),
            step <= 15 * 0xFFFF_FFFF,
            samples == samples_spec(gs, stride as int),
            samples as int == (n as int - 1) / (stride as int) + 1,
            start == race_start(*car, gs),
            start.wf(),
            k <= samples,
            found is None ==> sim == race_car(*car, gs, k as nat) && sim.wf() && sim.time == k * step
                && race_first_from(*car, gs, 0) == race_first_from(*car, gs, k as nat),
            found matches Some(j) ==> race_first_from(*car, gs, 0) == Some(j as nat) && j < samples,
            found is Some ==> k == samples,
        decreases samples - k,
    {
        proof {
            let (ki, ni, fi) = (k as int, n as int, stride as int);
            vstd::arithmetic::div_mod::lemma_fundamental_div_mod(ni - 1, fi);
            assert(ki * fi <= ((ni - 1) / fi) * fi) by (nonlinear_arith)
                requires
                    ki <= (ni - 1) / fi,
                    fi >= 1,
            ;
        }
        let f = traj.frame(k * stride);
        let d = sub2(car.loc.to_2d(), f.loc.to_2d());
        let dist = length(d.0, d.1);
        if sim.dist >= 120 * dist {
            found = Some(k);
            k = samples;
        } else if sim.time as u64 + step > MAX_SIM_TICKS as u64 {
            assert(sim.time + step == (k + 1) * step) by (nonlinear_arith)
                requires
                    sim.time == k * step,
            ;
            proof {
                assert(race_first_from(*car, gs, k as nat) is None);
            }
            k = samples;
            return None;
        } else {
            assert(sim.time + step == (k + 1) * step) by (nonlinear_arith)
                requires
                    sim.time == k * step,
            ;
            let ghost old_sim = sim;
            sim.multi_step(step as u32, true, true);
            proof {
                crate::car1d::lemma_run_add(start, (k * step) as nat, step as nat, true, true);
                crate::car1d::lemma_run_time(old_sim, step as nat, true, true);
                assert((k * step) as nat + step as nat == ((k + 1) * step) as nat) by (nonlinear_arith);
            }
            k = k + 1;
        }
    }
    let j = match found {
        Some(j) => j,
        None => {
            return None;
        },
    };
    proof {
        let (ki, ni, fi) = (j as int, n as int, stride as int);
        vstd::arithmetic::div_mod::lemma_fundamental_div_mod(ni - 1, fi);
        vstd::arithmetic::div_mod::lemma_mod_pos_bound(ni - 1, fi);
        assert(ki * fi <= ((ni - 1) / fi) * fi) by (nonlinear_arith)
            requires
                ki <= (ni - 1) / fi,
                fi >= 1,
        ;
        assert(((ni - 1) / fi) * fi == fi * ((ni - 1) / fi)) by (nonlinear_arith);
        assert(ki * fi < ni);
    }
    let f = *traj.frame(j * stride);
    let pen = turn_penalty(car.forward, sub2(f.loc.to_2d(), car.loc.to_2d()));
    let t = f.t as u64 + pen as u64;
    let last = traj.last();
    let ball = if t > last.t as u64 {
        *last
    } else {
        *traj.at_time_or_last(t as u32)
    };
    proof {
        assert(gs[0].t <= ball.t) by {
            if t > last.t as u64 {
                assert(gs[0].t <= gs[gs.len() - 1].t);
            } else {
                let i = crate::trajectory::lower_bound(gs, t as int);
                crate::trajectory::lemma_lower_bound_exists(gs, t as int);
                assert(gs[0].t <= gs[i].t);
            }
        }
    }
    Some(
        NaiveIntercept {
            time: ball.t - s0.t,
            ball_loc: ball.loc,
            ball_vel: ball.vel,
            car_loc: ball.loc,
            car_speed: length3(ball.vel),
        },
    )
}

/// `x / sqrt(l2) < c`, decided exactly without a square root; false when `l2` is zero.
pub open spec fn ratio_below(x: int, l2: int, c: int) -> bool {
    l2 > 0 && if c <= 0 {
        x < 0 && x * x > c * c * l2
    } else {
        x < 0 || x * x < c * c * l2
    }
}

fn ratio_below_exec(x: i64, l2: i64, c: i64) -> (r: bool)
    requires
        -0x2_0000_0000 <= x <= 0x2_0000_0000,
        0 <= l2 <= 0x4_0000_0000,
        -2000 <= c <= 2000,
    ensures
        r == ratio_below(x as int, l2 as int, c as int),
{
    if l2 <= 0 {
        return false;
    }
    let (xx, cc, ll) = (x as i128, c as i128, l2 as i128);
    assert(0 <= xx * xx <= 0x4_0000_0000_0000_0000) by (nonlinear_arith)
        requires
            -0x2_0000_0000 <= xx <= 0x2_0000_0000,
    ;
    assert(0 <= cc * cc <= 4_000_000) by (nonlinear_arith)
        requires
            -2000 <= cc <= 2000,
    ;
    assert(0 <= cc * cc * ll <= 4_000_000 * 0x4_0000_0000) by (nonlinear_arith)
        requires
            0 <= cc * cc <= 4_000_000,
            0 <= ll <= 0x4_0000_0000,
    ;
    let x2 = xx * xx;
    let c2 = cc * cc;
    let rhs = c2 * ll;
    if c <= 0 {
        x < 0 && x2 > rhs
    } else {
        x < 0 || x2 < rhs
    }
}

/// Is the ball, and everyone around it, moving towards our goal (milder version)?
/// `enemy_vel` is the primary enemy's velocity, zero if there is none.
pub open spec fn slightly_panicky_spec(me: CarInfo, enemy_vel: Vec2, ball: BallFrame, goal: Goal) -> bool {
    let a = sub2_spec(ball.loc.to_2d_spec(), goal.center);
    let l2 = a.0 * a.0 + a.1 * a.1;
    let me_retreating = dot2_spec(vec2_int(me.vel.to_2d_spec()), a);
    let enemy_charging = dot2_spec(vec2_int(enemy_vel), a);
    let ball_encroaching = dot2_spec(vec2_int(ball.vel.to_2d_spec()), a);
    let ball_from_me = sub2_spec(ball.loc.to_2d_spec(), me.loc.to_2d_spec());
    &&& !goal.y_within_spec(me.loc.y as int, 2000)
    &&& ratio_below(me_retreating, l2, -500)
    &&& ratio_below(enemy_charging, l2, -200)
    &&& ratio_below(ball_encroaching, l2, -200)
    &&& ratio_below(enemy_charging + ball_encroaching, l2, -800)
    &&& ratio_below(dot2_spec(ball_from_me, a), l2, 2000)
    &&& dot2_spec(vec2_int(me.forward), ball_from_me) <= 0
}

/// Is the ball, and everyone around it, moving fast towards our goal?
pub open spec fn very_panicky_spec(me: CarInfo, enemy_vel: Vec2, ball: BallFrame, goal: Goal) -> bool {
    let a = sub2_spec(ball.loc.to_2d_spec(), goal.center);
    let l2 = a.0 * a.0 + a.1 * a.1;
    let enemy_charging = dot2_spec(vec2_int(enemy_vel), a);
    let ball_encroaching = dot2_spec(vec2_int(ball.vel.to_2d_spec()), a);
    let ball_from_me = sub2_spec(ball.loc.to_2d_spec(), me.loc.to_2d_spec());
    &&& !goal.y_within_spec(me.loc.y as int, 2000)
    &&& ratio_below(enemy_charging, l2, -800)
    &&& ratio_below(ball_encroaching, l2, -800)
    &&& ratio_below(dot2_spec(ball_from_me, a), l2, 2000)
    &&& dot2_spec(vec2_int(me.forward), ball_from_me) <= 0
}

fn retreat_flags(me: &CarInfo, enemy_vel: Vec2, ball: &BallFrame, goal: &Goal) -> (r: (bool, bool))
    ensures
        r.0 == slightly_panicky_spec(*me, enemy_vel, *ball, *goal),
        r.1 == very_panicky_spec(*me, enemy_vel, *ball, *goal),
{
    let a = sub2(ball.loc.to_2d(), goal.center);
    let l2 = dot2(a, a);
    assert(0 <= l2 <= 0x2_0000_0000) by (nonlinear_arith)
        requires
            l2 == a.0 * a.0 + a.1 * a.1,
            -65536 <= a.0 <= 65536,
            -65536 <= a.1 <= 65536,
    ;
    let me_vel = (me.vel.x as i64, me.vel.y as i64);
    let ev = (enemy_vel.x as i64, enemy_vel.y as i64);
    let bv = (ball.vel.x as i64, ball.vel.y as i64);
    let from_me = sub2(ball.loc.to_2d(), me.loc.to_2d());
    let fwd = (me.forward.x as i64, me.forward.y as i64);
    let me_retreating = dot2(me_vel, a);
    let enemy_charging = dot2(ev, a);
    let ball_encroaching = dot2(bv, a);
    let goalside = dot2(from_me, a);
    let awkward = dot2(fwd, from_me) <= 0;
    assert(-0x1_0000_0000 <= me_retreating <= 0x1_0000_0000 && -0x1_0000_0000 <= enemy_charging
        <= 0x1_0000_0000 && -0x1_0000_0000 <= ball_encroaching <= 0x1_0000_0000) by (nonlinear_arith)
        requires
            me_retreating == me_vel.0 * a.0 + me_vel.1 * a.1,
            enemy_charging == ev.0 * a.0 + ev.1 * a.1,
            ball_encroaching == bv.0 * a.0 + bv.1 * a.1,
            -32768 <= me_vel.0 <= 32767,
            -32768 <= me_vel.1 <= 32767,
            -32768 <= ev.0 <= 32767,
            -32768 <= ev.1 <= 32767,
            -32768 <= bv.0 <= 32767,
            -32768 <= bv.1 <= 32767,
            -65536 <= a.0 <= 65536,
            -65536 <= a.1 <= 65536,
    ;
    assert(-0x2_0000_0000 <= goalside <= 0x2_0000_0000) by (nonlinear_arith)
        requires
            goalside == from_me.0 * a.0 + from_me.1 * a.1,
            -65536 <= from_me.0 <= 65536,
            -65536 <= from_me.1 <= 65536,
            -65536 <= a.0 <= 65536,
            -65536 <= a.1 <= 65536,
    ;
    let far = !goal.is_y_within_range(me.loc.y, 2000);
    let goalside_ok = ratio_below_exec(goalside, l2, 2000);
    let slightly = far && ratio_below_exec(me_retreating, l2, -500) && ratio_below_exec(
        enemy_charging,
        l2,
        -200,
    ) && ratio_below_exec(ball_encroaching, l2, -200) && ratio_below_exec(
        enemy_charging + ball_encroaching,
        l2,
        -800,
    ) && goalside_ok && awkward;
    let very = far && ratio_below_exec(enemy_charging, l2, -800) && ratio_below_exec(
        ball_encroaching,
        l2,
        -800,
    ) && goalside_ok && awkward;
    (slightly, very)
}

pub open spec fn goal_check(goal: Goal, loc: Vec3, conservative: bool) -> bool {
    if conservative {
        goal.scored_conservative_spec(loc)
    } else {
        goal.scored_spec(loc)
    }
}

/// The first half-second sample, from the `k`-th on, at which the ball is in `goal`.
pub open spec fn impending_from(s: Seq<BallFrame>, goal: Goal, conservative: bool, k: nat) -> Option<
    BallFrame,
>
    decreases samples_spec(s, stride_spec(s, GOAL_CHECK_STEP_TICKS as int)) - k,
{
    let stride = stride_spec(s, GOAL_CHECK_STEP_TICKS as int);
    if k >= samples_spec(s, stride) {
        None
    } else {
        let f = s[k * stride];
        if goal_check(goal, f.loc, conservative) {
            Some(BallFrame { dt: (stride * s[0].dt) as u32, ..f })
        } else {
            impending_from(s, goal, conservative, k + 1)
        }
    }
}

/// If nobody touches the ball, the first half-second sample of the forecast at which it is in
/// `goal`.
pub fn impending_ball_in_goal(traj: &BallTrajectory, goal: &Goal, conservative: bool) -> (r: Option<
    BallFrame,
>)
    requires
        traj.wf(),
    ensures
        r == impending_from(traj@, *goal, conservative, 0),
{
    let dt0 = traj.start().dt;
    let stride: usize = if dt0 == 0 || GOAL_CHECK_STEP_TICKS / dt0 == 0 {
        1
    } else {
        (GOAL_CHECK_STEP_TICKS / dt0) as usize
    };
    let ghost gs = traj@;
    assert(stride <= 60) by {
        if dt0 > 0 && GOAL_CHECK_STEP_TICKS / dt0 > 0 {
            vstd::arithmetic::div_mod::lemma_div_is_ordered_by_denominator(60, 1, dt0 as int);
        }
    }
    let n = traj.len();
    let samples = (n - 1) / stride + 1;
    proof {
        let (ni, fi) = (n as int, stride as int);
        let (q0, r0) = ((ni - 1) / fi, (ni - 1) % fi);
        vstd::arithmetic::div_mod::lemma_fundamental_div_mod(ni - 1, fi);
        vstd::arithmetic::div_mod::lemma_mod_pos_bound(ni - 1, fi);
        assert((q0 + 1) * fi == fi * q0 + fi) by (nonlinear_arith);
        vstd::arithmetic::div_mod::lemma_fundamental_div_mod_converse(ni + fi - 1, fi, q0 + 1, r0);
    }
    let mut k: usize = 0;
    while k < samples
        invariant
            gs == traj@,
            traj.wf(),
            n == gs.len(),
            stride >= 1,
            stride <= 60,
            stride == stride_spec(gs, GOAL_CHECK_STEP_TICKS as int),
            dt0 == gs[0].dt,
            samples == samples_spec(gs, stride as int),
            samples as int == (n as int - 1) / (stride as int) + 1,
            k <= samples,
            impending_from(gs, *goal, conservative, 0) == impending_from(
                gs,
                *goal,
                conservative,
                k as nat,
            ),
        decreases samples - k,
    {
        proof {
            let (ki, ni, fi) = (k as int, n as int, stride as int);
            vstd::arithmetic::div_mod::lemma_fundamental_div_mod(ni - 1, fi);
            assert(ki * fi <= ((ni - 1) / fi) * fi) by (nonlinear_arith)
                requires
                    ki <= (ni - 1) / fi,
                    fi >= 1,
            ;
        }
        let f = *traj.frame(k * stride);
        let hit = if conservative {
            goal.ball_is_scored_conservative(f.loc)
        } else {
            goal.ball_is_scored(f.loc)
        };
        if hit {
            assert(stride * dt0 <= 0xFFFF_FFFF) by {
                if dt0 > 0 && GOAL_CHECK_STEP_TICKS / dt0 > 0 {
                    vstd::arithmetic::div_mod::lemma_fundamental_div_mod(60, dt0 as int);
                    let q = 60int / (dt0 as int);
                    let m = 60int % (dt0 as int);
                    vstd::arithmetic::div_mod::lemma_mod_pos_bound(60int, dt0 as int);
                    assert(stride as int * dt0 as int <= 60) by (nonlinear_arith)
                        requires
                            stride as int == q,
                            60 == dt0 * q + m,
                            0 <= m,
                            dt0 > 0,
                    ;
                }
            }
            return Some(BallFrame { dt: (stride as u32) * dt0, ..f });
        }
        k = k + 1;
    }
    None
}

/// `a * b / c` rounded towards zero, for any sign of `a * b` and positive `c`.
pub open spec fn div_trunc(n: int, c: int) -> int {
    if n >= 0 {
        n / c
    } else {
        -((-n) / c)
    }
}

fn div_trunc_exec(n: i64, c: i64) -> (r: i64)
    requires
        c > 0,
        -0x1000_0000_0000_0000 <= n <= 0x1000_0000_0000_0000,
    ensures
        r == div_trunc(n as int, c as int),
        n >= 0 ==> 0 <= r <= n,
        n < 0 ==> n <= r <= 0,
{
    if n >= 0 {
        proof {
            vstd::arithmetic::div_mod::lemma_div_is_ordered_by_denominator(n as int, 1, c as int);
            vstd::arithmetic::div_mod::lemma_div_pos_is_pos(n as int, c as int);
        }
        n / c
    } else {
        proof {
            vstd::arithmetic::div_mod::lemma_div_is_ordered_by_denominator(-n as int, 1, c as int);
            vstd::arithmetic::div_mod::lemma_div_pos_is_pos(-n as int, c as int);
        }
        -((-n) / c)
    }
}

/// The angle (tenths of a degree) whose cosine is `cos` thousandths, for cosines from 0 to
/// 1000: interpolated linearly between the exact values at every 15 degrees.
pub open spec fn acos_decideg_spec(cos: int) -> int {
    if cos >= 1000 {
        0
    } else if cos >= 966 {
        (1000 - cos) * 150 / 34
    } else if cos >= 866 {
        150 + (966 - cos) * 150 / 100
    } else if cos >= 707 {
        300 + (866 - cos) * 150 / 159
    } else if cos >= 500 {
        450 + (707 - cos) * 150 / 207
    } else if cos >= 259 {
        600 + (500 - cos) * 150 / 241
    } else if cos > 0 {
        750 + (259 - cos) * 150 / 259
    } else {
        900
    }
}

pub fn acos_decideg(cos: i64) -> (r: i64)
    requires
        -1000 <= cos <= 1000,
    ensures
        r == acos_decideg_spec(cos as int),
        0 <= r <= 900,
{
    if cos >= 1000 {
        0
    } else if cos >= 966 {
        (1000 - cos) * 150 / 34
    } else if cos >= 866 {
        150 + (966 - cos) * 150 / 100
    } else if cos >= 707 {
        300 + (866 - cos) * 150 / 159
    } else if cos >= 500 {
        450 + (707 - cos) * 150 / 207
    } else if cos >= 259 {
        600 + (500 - cos) * 150 / 241
    } else if cos > 0 {
        750 + (259 - cos) * 150 / 259
    } else {
        900
    }
}

/// Share (thousandths) of the car's push that counts: all of it within 30 degrees of the shot
/// line, none from 90 degrees on, linear in the angle in between.
pub open spec fn push_factor_spec(cos: int) -> int {
    let a = acos_decideg_spec(cos);
    if a <= 300 {
        1000
    } else if a >= 900 {
        0
    } else {
        (900 - a) * 1000 / 600
    }
}

pub fn push_factor(cos: i64) -> (r: i64)
    requires
        -1000 <= cos <= 1000,
    ensures
        r == push_factor_spec(cos as int),
        0 <= r <= 1000,
{
    let a = acos_decideg(cos);
    if a <= 300 {
        1000
    } else if a >= 900 {
        0
    } else {
        (900 - a) * 1000 / 600
    }
}

/// Ticks until a shot from the enemy's intercept would be in `goal`, if it would get there at
/// all. The shot's speed towards the goal is the ball's own speed that way plus the car's push:
/// twice the car's speed along the shot line, scaled by `push_factor_spec` of the angle between
/// the car's approach and the shot line. Under one unit per second the shot never arrives.
pub open spec fn shot_ticks_spec(car: CarInfo, intercept: NaiveIntercept, goal: Goal) -> Option<u32> {
    let ball = intercept.ball_loc.to_2d_spec();
    let ctb = sub2_spec(ball, car.loc.to_2d_spec());
    let btg = sub2_spec(goal.center, ball);
    let l_btg = len_spec(btg);
    let l_ctb = len_spec(ctb);
    if l_btg == 0 {
        None
    } else {
        let ball_speed = div_trunc(dot2_spec(vec2_int(intercept.ball_vel.to_2d_spec()), btg), l_btg);
        let cos = if l_ctb == 0 {
            0
        } else {
            let c = div_trunc(dot2_spec(ctb, btg) * 1000, l_ctb * l_btg);
            if c > 1000 {
                1000
            } else if c < -1000 {
                -1000
            } else {
                c
            }
        };
        let push = if cos > 0 {
            2 * (intercept.car_speed * cos / 1000)
        } else {
            0
        };
        let factor = push_factor_spec(cos);
        let shot = ball_speed + push * factor / 1000;
        if shot < 1 {
            None
        } else {
            Some((l_btg * 120 / shot) as u32)
        }
    }
}

pub fn shot_ticks(car: &CarInfo, intercept: &NaiveIntercept, goal: &Goal) -> (r: Option<u32>)
    requires
        intercept.car_speed <= 60000,
    ensures
        r == shot_ticks_spec(*car, *intercept, *goal),
{
    let ball = intercept.ball_loc.to_2d();
    let ctb = sub2(ball, car.loc.to_2d());
    let btg = sub2(goal.center, ball);
    let l_btg = length(btg.0, btg.1) as i64;
    let l_ctb = length(ctb.0, ctb.1) as i64;
    if l_btg == 0 {
        return None;
    }
    let bv = (intercept.ball_vel.x as i64, intercept.ball_vel.y as i64);
    let dv = dot2(bv, btg);
    assert(-0x1_0000_0000 <= dv <= 0x1_0000_0000) by (nonlinear_arith)
        requires
            dv == bv.0 * btg.0 + bv.1 * btg.1,
            -32768 <= bv.0 <= 32767,
            -32768 <= bv.1 <= 32767,
            -65536 <= btg.0 <= 65536,
            -65536 <= btg.1 <= 65536,
    ;
    let ball_speed = div_trunc_exec(dv, l_btg);
    let cos: i64 = if l_ctb == 0 {
        0
    } else {
        let d = dot2(ctb, btg);
        assert(-0x2_0000_0000 <= d <= 0x2_0000_0000) by (nonlinear_arith)
            requires
                d == ctb.0 * btg.0 + ctb.1 * btg.1,
                -65536 <= ctb.0 <= 65536,
                -65536 <= ctb.1 <= 65536,
                -65536 <= btg.0 <= 65536,
                -65536 <= btg.1 <= 65536,
        ;
        assert(0 < l_ctb * l_btg <= 92682 * 92682) by (nonlinear_arith)
            requires
                0 < l_ctb <= 92682,
                0 < l_btg <= 92682,
        ;
        let c = div_trunc_exec(d * 1000, l_ctb * l_btg);
        if c > 1000 {
            1000
        } else if c < -1000 {
            -1000
        } else {
            c
        }
    };
    let speed = intercept.car_speed as i64;
    let push: i64 = if cos > 0 {
        assert(speed * cos <= 60000 * 1000) by (nonlinear_arith)
            requires
                0 <= speed <= 60000,
                0 < cos <= 1000,
        ;
        assert(speed * cos >= 0) by (nonlinear_arith)
            requires
                0 <= speed,
                0 < cos,
        ;
        2 * (speed * cos / 1000)
    } else {
        0
    };
    let factor = push_factor(cos);
    assert(0 <= push <= 120000);
    assert(0 <= factor <= 1000);
    assert(0 <= push * factor <= 120000 * 1000) by (nonlinear_arith)
        requires
            0 <= push <= 120000,
            0 <= factor <= 1000,
    ;
    let shot = ball_speed + push * factor / 1000;
    if shot < 1 {
        None
    } else {
        assert(l_btg * 120 <= 92682 * 120);
        proof {
            vstd::arithmetic::div_mod::lemma_div_is_ordered_by_denominator((l_btg * 120) as int, 1, shot as int);
        }
        Some((l_btg * 120 / shot) as u32)
    }
}

/// The outcome of the race to the ball, computed once per tick.
#[derive(Clone, Copy, Debug)]
pub struct Race {
    pub me: Option<NaiveIntercept>,
    pub enemy: Option<(usize, NaiveIntercept)>,
    pub possession: i64,
}

/// Facts about one tick, each worked out on first request and then kept for the rest of
/// the tick. Build a new one every tick.
pub struct Scenario {
    ball_prediction: BallTrajectory,
    me: CarInfo,
    enemies: Vec<CarInfo>,
    own_goal: Goal,
    enemy_goal: Goal,
    race: Option<Race>,
    impending_score_conservative: Option<Option<BallFrame>>,
    impending_concede: Option<Option<BallFrame>>,
    retreat: Option<(bool, bool)>,
    enemy_shot: Option<Option<u32>>,
    push_wall: Option<Wall>,
}

impl Scenario {
    pub closed spec fn trajectory(&self) -> Seq<BallFrame> {
        self.ball_prediction@
    }

    pub closed spec fn me_spec(&self) -> CarInfo {
        self.me
    }

    pub closed spec fn enemies_spec(&self) -> Seq<CarInfo> {
        self.enemies@
    }

    pub closed spec fn own_goal_spec(&self) -> Goal {
        self.own_goal
    }

    pub closed spec fn enemy_goal_spec(&self) -> Goal {
        self.enemy_goal
    }

    /// Same tick: the same forecast, cars and goals.
    pub open spec fn same_inputs(&self, other: &Scenario) -> bool {
        &&& self.trajectory() == other.trajectory()
        &&& self.me_spec() == other.me_spec()
        &&& self.enemies_spec() == other.enemies_spec()
        &&& self.own_goal_spec() == other.own_goal_spec()
        &&& self.enemy_goal_spec() == other.enemy_goal_spec()
    }

    pub open spec fn me_intercept_spec(&self) -> Option<NaiveIntercept> {
        blitz_intercept_spec(self.me_spec(), self.trajectory())
    }

    pub open spec fn enemy_intercept_spec(&self) -> Option<(usize, NaiveIntercept)> {
        best_enemy_upto(self.enemies_spec(), self.trajectory(), self.enemies_spec().len())
    }

    pub open spec fn possession_value(&self) -> int {
        possession_spec(self.me_intercept_spec(), self.enemy_intercept_spec())
    }

    /// Where the ball would go if I blitz to it and hit it straight on: the boundary the line
    /// from me through my intercept (or the end of the forecast, if I have none) meets first.
    pub open spec fn push_wall_spec(&self) -> Wall {
        let target = match self.me_intercept_spec() {
            Some(i) => i.ball_loc,
            None => self.trajectory().last().loc,
        };
        wall_for_ray_spec(self.me_spec().loc.to_2d_spec(), target.to_2d_spec(), self.own_goal_spec())
    }

    pub open spec fn enemy_shot_spec(&self) -> Option<u32> {
        match self.enemy_intercept_spec() {
            Some(e) => shot_ticks_spec(self.enemies_spec()[e.0 as int], e.1, self.own_goal_spec()),
            None => None,
        }
    }

    pub open spec fn enemy_vel_spec(&self) -> Vec2 {
        match self.enemy_intercept_spec() {
            Some(e) => self.enemies_spec()[e.0 as int].vel.to_2d_spec(),
            None => Vec2 { x: 0, y: 0 },
        }
    }

    pub closed spec fn wf(&self) -> bool {
        &&& self.ball_prediction.wf()
        &&& self.race matches Some(r) ==> r.me == self.me_intercept_spec() && r.enemy
            == self.enemy_intercept_spec() && r.possession == self.possession_value()
        &&& self.impending_score_conservative matches Some(f) ==> f == impending_from(
            self.trajectory(),
            self.enemy_goal,
            true,
            0,
        )
        &&& self.impending_concede matches Some(f) ==> f == impending_from(
            self.trajectory(),
            self.own_goal,
            false,
            0,
        )
        &&& self.enemy_shot matches Some(t) ==> t == self.enemy_shot_spec()
        &&& self.push_wall matches Some(w) ==> w == self.push_wall_spec()
        &&& self.retreat matches Some(p) ==> p.0 == slightly_panicky_spec(
            self.me,
            self.enemy_vel_spec(),
            self.trajectory()[0],
            self.own_goal,
        ) && p.1 == very_panicky_spec(
            self.me,
            self.enemy_vel_spec(),
            self.trajectory()[0],
            self.own_goal,
        )
    }

    pub fn new(
        ball_prediction: BallTrajectory,
        me: CarInfo,
        enemies: Vec<CarInfo>,
        own_goal: Goal,
        enemy_goal: Goal,
    ) -> (r: Scenario)
        requires
            ball_prediction.wf(),
        ensures
            r.wf(),
            r.trajectory() == ball_prediction@,
            r.me_spec() == me,
            r.enemies_spec() == enemies@,
            r.own_goal_spec() == own_goal,
            r.enemy_goal_spec() == enemy_goal,
    {
        Scenario {
            ball_prediction,
            me,
            enemies,
            own_goal,
            enemy_goal,
            race: None,
            impending_score_conservative: None,
            impending_concede: None,
            retreat: None,
            enemy_shot: None,
            push_wall: None,
        }
    }

    pub fn ball_prediction(&self) -> (r: &BallTrajectory)
        requires
            self.wf(),
        ensures
            r@ == self.trajectory(),
            r.wf(),
    {
        &self.ball_prediction
    }

    pub fn me(&self) -> (r: &CarInfo)
        ensures
            *r == self.me_spec(),
    {
        &self.me
    }

    /// The opposing cars.
    pub fn enemy_cars(&self) -> (r: &Vec<CarInfo>)
        ensures
            r@ == self.enemies_spec(),
    {
        &self.enemies
    }

    fn race(&mut self) -> (r: Race)
        requires
            old(self).wf(),
        ensures
            final(self).wf(),
            final(self).same_inputs(old(self)),
            r.me == old(self).me_intercept_spec(),
            r.enemy == old(self).enemy_intercept_spec(),
            r.possession == old(self).possession_value(),
    {
        match self.race {
            Some(r) => {
                return r;
            },
            None => {},
        }
        let me = simulate_ball_blitz(&self.ball_prediction, &self.me);
        let mut best: Option<(usize, NaiveIntercept)> = None;
        let mut i: usize = 0;
        while i < self.enemies.len()
            invariant
                self.ball_prediction.wf(),
                i <= self.enemies@.len(),
                best == best_enemy_upto(self.enemies@, self.ball_prediction@, i as nat),
            decreases self.enemies@.len() - i,
        {
            match simulate_ball_blitz(&self.ball_prediction, &self.enemies[i]) {
                Some(x) => {
                    best = match best {
                        Some(p) => if p.1.time <= x.time {
                            Some(p)
                        } else {
                            Some((i, x))
                        },
                        None => Some((i, x)),
                    };
                },
                None => {},
            }
            i = i + 1;
        }
        let possession: i64 = match (&me, &best) {
            (Some(m), Some((_, e))) => e.time as i64 - m.time as i64,
            _ => POSSESSION_SATURATED,
        };
        let r = Race { me, enemy: best, possession };
        self.race = Some(r);
        r
    }

    /// Where I can first reach the ball.
    pub fn me_intercept(&mut self) -> (r: Option<NaiveIntercept>)
        requires
            old(self).wf(),
        ensures
            final(self).wf(),
            final(self).same_inputs(old(self)),
            r == old(self).me_intercept_spec(),
    {
        self.race().me
    }

    /// The enemy who reaches the ball first (its index), and where.
    pub fn enemy_intercept(&mut self) -> (r: Option<(usize, NaiveIntercept)>)
        requires
            old(self).wf(),
        ensures
            final(self).wf(),
            final(self).same_inputs(old(self)),
            r == old(self).enemy_intercept_spec(),
    {
        self.race().enemy
    }

    /// The enemy who reaches the ball first.
    pub fn primary_enemy(&mut self) -> (r: Option<CarInfo>)
        requires
            old(self).wf(),
        ensures
            final(self).wf(),
            final(self).same_inputs(old(self)),
            r == (match old(self).enemy_intercept_spec() {
                Some(e) => Some(old(self).enemies_spec()[e.0 as int]),
                None => None,
            }),
    {
        match self.race().enemy {
            Some((i, _)) => {
                proof {
                    self.lemma_enemy_index(self.enemies@.len());
                }
                Some(self.enemies[i])
            },
            None => None,
        }
    }

    proof fn lemma_enemy_index(&self, k: nat)
        requires
            k <= self.enemies@.len(),
        ensures
            best_enemy_upto(self.enemies@, self.ball_prediction@, k) matches Some(e) ==> e.0 < k,
        decreases k,
    {
        if k > 0 {
            self.lemma_enemy_index((k - 1) as nat);
        }
    }

    /// Ticks by which I can reach the ball before the quickest enemy (negative if the enemy
    /// is first); `POSSESSION_SATURATED` unless both sides can reach it.
    pub fn possession(&mut self) -> (r: i64)
        requires
            old(self).wf(),
        ensures
            final(self).wf(),
            final(self).same_inputs(old(self)),
            r == old(self).possession_value(),
    {
        self.race().possession
    }

    /// If nobody touches the ball, will it end up in the enemy goal? Judged conservatively.
    pub fn impending_score_conservative(&mut self) -> (r: Option<BallFrame>)
        requires
            old(self).wf(),
        ensures
            final(self).wf(),
            final(self).same_inputs(old(self)),
            r == impending_from(old(self).trajectory(), old(self).enemy_goal_spec(), true, 0),
    {
        match self.impending_score_conservative {
            Some(f) => f,
            None => {
                let f = impending_ball_in_goal(&self.ball_prediction, &self.enemy_goal, true);
                self.impending_score_conservative = Some(f);
                f
            },
        }
    }

    /// If nobody touches the ball, will it end up in our goal?
    pub fn impending_concede(&mut self) -> (r: Option<BallFrame>)
        requires
            old(self).wf(),
        ensures
            final(self).wf(),
            final(self).same_inputs(old(self)),
            r == impending_from(old(self).trajectory(), old(self).own_goal_spec(), false, 0),
    {
        match self.impending_concede {
            Some(f) => f,
            None => {
                let f = impending_ball_in_goal(&self.ball_prediction, &self.own_goal, false);
                self.impending_concede = Some(f);
                f
            },
        }
    }

    fn retreat(&mut self) -> (r: (bool, bool))
        requires
            old(self).wf(),
        ensures
            final(self).wf(),
            final(self).same_inputs(old(self)),
            r.0 == slightly_panicky_spec(
                old(self).me_spec(),
                old(self).enemy_vel_spec(),
                old(self).trajectory()[0],
                old(self).own_goal_spec(),
            ),
            r.1 == very_panicky_spec(
                old(self).me_spec(),
                old(self).enemy_vel_spec(),
                old(self).trajectory()[0],
                old(self).own_goal_spec(),
            ),
    {
        match self.retreat {
            Some(p) => {
                return p;
            },
            None => {},
        }
        let enemy_vel = match self.primary_enemy() {
            Some(e) => e.vel.to_2d(),
            None => Vec2 { x: 0, y: 0 },
        };
        let ball = *self.ball_prediction.start();
        let p = retreat_flags(&self.me, enemy_vel, &ball, &self.own_goal);
        self.retreat = Some(p);
        p
    }

    /// Which boundary my straight-on hit would send the ball to (see `push_wall_spec`).
    pub fn push_wall(&mut self) -> (r: Wall)
        requires
            old(self).wf(),
        ensures
            final(self).wf(),
            final(self).same_inputs(old(self)),
            r == old(self).push_wall_spec(),
    {
        match self.push_wall {
            Some(w) => {
                return w;
            },
            None => {},
        }
        let target = match self.me_intercept() {
            Some(i) => i.ball_loc,
            None => self.ball_prediction.last().loc,
        };
        let w = wall_for_ray(self.me.loc.to_2d(), target.to_2d(), &self.own_goal);
        self.push_wall = Some(w);
        w
    }

    /// If the quickest enemy shoots from its intercept, the ticks until the shot would be in
    /// our goal (see `shot_ticks_spec`); `None` when no enemy can reach the ball or the shot
    /// would not arrive.
    pub fn enemy_shoot_score_seconds(&mut self) -> (r: Option<u32>)
        requires
            old(self).wf(),
        ensures
            final(self).wf(),
            final(self).same_inputs(old(self)),
            r == old(self).enemy_shot_spec(),
    {
        match self.enemy_shot {
            Some(t) => {
                return t;
            },
            None => {},
        }
        let t = match self.enemy_intercept() {
            Some((i, intercept)) => {
                proof {
                    self.lemma_enemy_index(self.enemies@.len());
                    self.lemma_intercept_speed(self.enemies@.len());
                }
                let car = self.enemies[i];
                shot_ticks(&car, &intercept, &self.own_goal)
            },
            None => None,
        };
        self.enemy_shot = Some(t);
        t
    }

    proof fn lemma_intercept_speed(&self, k: nat)
        requires
            k <= self.enemies@.len(),
        ensures
            best_enemy_upto(self.enemies@, self.ball_prediction@, k) matches Some(e) ==> e.1.car_speed
                <= 60000,
        decreases k,
    {
        if k > 0 {
            self.lemma_intercept_speed((k - 1) as nat);
            let c = blitz_intercept_spec(self.enemies@[k - 1], self.ball_prediction@);
            if c is Some {
                self.lemma_blitz_speed(self.enemies@[k - 1]);
            }
        }
    }

    proof fn lemma_blitz_speed(&self, car: CarInfo)
        ensures
            blitz_intercept_spec(car, self.ball_prediction@) matches Some(i) ==> i.car_speed <= 60000,
    {
        if blitz_intercept_spec(car, self.ball_prediction@) is Some {
            let s = self.ball_prediction@;
            let k = race_first_from(car, s, 0)->Some_0;
            let f = s[k * stride_spec(s, RACE_STEP_TICKS as int)];
            let pen = turn_penalty_spec(vec2_int(car.forward), sub2_spec(f.loc.to_2d_spec(), car.loc.to_2d_spec()));
            let ball = at_time_or_last_spec(s, f.t + pen);
            lemma_len3_bound(ball.vel);
        }
    }

    /// Are the ball and everyone around it moving towards our goal?
    pub fn slightly_panicky_retreat(&mut self) -> (r: bool)
        requires
            old(self).wf(),
        ensures
            final(self).wf(),
            final(self).same_inputs(old(self)),
            r == slightly_panicky_spec(
                old(self).me_spec(),
                old(self).enemy_vel_spec(),
                old(self).trajectory()[0],
                old(self).own_goal_spec(),
            ),
    {
        self.retreat().0
    }

    /// Are the ball and everyone around it moving fast towards our goal?
    pub fn very_panicky_retreat(&mut self) -> (r: bool)
        requires
            old(self).wf(),
        ensures
            final(self).wf(),
            final(self).same_inputs(old(self)),
            r == very_panicky_spec(
                old(self).me_spec(),
                old(self).enemy_vel_spec(),
                old(self).trajectory()[0],
                old(self).own_goal_spec(),
            ),
    {
        self.retreat().1
    }
}

} // verus!
