use vstd::prelude::*;

verus! {

/// Top speed of a car, in unreal units per second.
pub const CAR_MAX_SPEED: u32 = 2300;

/// Speed gained from a forward dodge.
pub const DODGE_FORWARD_IMPULSE: u32 = 500;

/// Longest span any simulation in this crate covers: one minute of ticks.
pub const MAX_SIM_TICKS: u32 = 7200;

/// Boost lasts this many ticks per 5 units of the boost meter (100 units last three seconds).
pub const BOOST_TICKS_PER_5: u32 = 18;

/// Speed gained per tick on full throttle from standstill; the gain shrinks linearly to zero
/// at `THROTTLE_TAPER_SPEED`.
pub const THROTTLE_GAIN_AT_REST: u32 = 13;

pub const THROTTLE_TAPER_SPEED: u32 = 1400;

/// Speed gained per tick while boosting.
pub const BOOST_GAIN: u32 = 8;

/// Speed lost per tick while coasting.
pub const COAST_LOSS: u32 = 4;

/// A car driving in a straight line, simulated tick by tick. `dist` is the distance travelled
/// in 1/120 unreal units: each tick adds the speed (units per second) at the end of the tick.
#[derive(Clone, Copy, Debug, PartialEq, Eq, Structural)]
pub struct Car1D {
    pub time: u32,
    pub speed: u32,
    pub dist: u64,
    pub boost_ticks: u32,
}

pub open spec fn throttle_gain(speed: int) -> int {
    if speed < THROTTLE_TAPER_SPEED {
        THROTTLE_GAIN_AT_REST * (THROTTLE_TAPER_SPEED - speed) / THROTTLE_TAPER_SPEED as int
    } else {
        0
    }
}

pub open spec fn min_int(a: int, b: int) -> int {
    if a <= b {
        a
    } else {
        b
    }
}

impl Car1D {
    pub open spec fn wf(self) -> bool {
        &&& self.speed <= CAR_MAX_SPEED
        &&& self.time <= MAX_SIM_TICKS
        &&& self.dist <= self.time as int * CAR_MAX_SPEED
        &&& self.boost_ticks <= 360
    }

    /// One tick. On throttle the car speeds up (more while it boosts and boost is left);
    /// otherwise it coasts and slows down, never below standstill.
    pub open spec fn step_spec(self, throttle: bool, boost: bool) -> Car1D {
        let boosting = throttle && boost && self.boost_ticks > 0;
        let speed = if throttle {
            min_int(
                self.speed + throttle_gain(self.speed as int) + if boosting {
                    BOOST_GAIN as int
                } else {
                    0
                },
                CAR_MAX_SPEED as int,
            )
        } else if self.speed >= COAST_LOSS {
            self.speed - COAST_LOSS
        } else {
            0
        };
        Car1D {
            time: (self.time + 1) as u32,
            speed: speed as u32,
            dist: (self.dist + speed) as u64,
            boost_ticks: if boosting {
                (self.boost_ticks - 1) as u32
            } else {
                self.boost_ticks
            },
        }
    }

    /// The car after `n` ticks with the same inputs.
    pub open spec fn run_spec(self, n: nat, throttle: bool, boost: bool) -> Car1D
        decreases n,
    {
        if n == 0 {
            self
        } else {
            self.run_spec((n - 1) as nat, throttle, boost).step_spec(throttle, boost)
        }
    }

    pub open spec fn new_spec(speed: int) -> Car1D {
        Car1D {
            time: 0,
            speed: min_int(if speed < 0 { 0 } else { speed }, CAR_MAX_SPEED as int) as u32,
            dist: 0,
            boost_ticks: 0,
        }
    }

    pub open spec fn boost_ticks_for(boost: int) -> int {
        min_int(boost, 100) * BOOST_TICKS_PER_5 / 5
    }

    /// A car at rest in time and place, moving at `speed` (limited to top speed), without boost.
    pub fn new(speed: i64) -> (r: Car1D)
        ensures
            r == Car1D::new_spec(speed as int),
            r.wf(),
    {
        let s: u32 = if speed < 0 {
            0
        } else if speed > CAR_MAX_SPEED as i64 {
            CAR_MAX_SPEED
        } else {
            speed as u32
        };
        Car1D { time: 0, speed: s, dist: 0, boost_ticks: 0 }
    }

    pub open spec fn with_boost_spec(self, boost: int) -> Car1D {
        Car1D { boost_ticks: Car1D::boost_ticks_for(boost) as u32, ..self }
    }

    /// The same car with `boost` units in its meter (at most 100 count).
    pub fn with_boost(self, boost: u8) -> (r: Car1D)
        ensures
            r == self.with_boost_spec(boost as int),
            self.wf() ==> r.wf(),
    {
        let b: u32 = if boost > 100 {
            100
        } else {
            boost as u32
        };
        Car1D { boost_ticks: b * BOOST_TICKS_PER_5 / 5, ..self }
    }

    pub fn step(&mut self, throttle: bool, boost: bool)
        requires
            old(self).wf(),
            old(self).time < MAX_SIM_TICKS,
        ensures
            *final(self) == old(self).step_spec(throttle, boost),
            final(self).wf(),
    {
        let boosting = throttle && boost && self.boost_ticks > 0;
        let speed: u32 = if throttle {
            let gain: u32 = if self.speed < THROTTLE_TAPER_SPEED {
                THROTTLE_GAIN_AT_REST * (THROTTLE_TAPER_SPEED - self.speed) / THROTTLE_TAPER_SPEED
            } else {
                0
            };
            let s = self.speed + gain + if boosting {
                BOOST_GAIN
            } else {
                0
            };
            if s <= CAR_MAX_SPEED {
                s
            } else {
                CAR_MAX_SPEED
            }
        } else if self.speed >= COAST_LOSS {
            self.speed - COAST_LOSS
        } else {
            0
        };
        self.time = self.time + 1;
        self.speed = speed;
        self.dist = self.dist + speed as u64;
        if boosting {
            self.boost_ticks = self.boost_ticks - 1;
        }
    }

    /// `n` ticks with the same inputs.
    pub fn multi_step(&mut self, n: u32, throttle: bool, boost: bool)
        requires
            old(self).wf(),
            old(self).time + n <= MAX_SIM_TICKS,
        ensures
            *final(self) == old(self).run_spec(n as nat, throttle, boost),
            final(self).wf(),
    {
        let mut k: u32 = 0;
        while k < n
            invariant
                k <= n,
                self.wf(),
                self.time == old(self).time + k,
                old(self).time + n <= MAX_SIM_TICKS,
                *self == old(self).run_spec(k as nat, throttle, boost),
            decreases n - k,
        {
            self.step(throttle, boost);
            k = k + 1;
        }
    }

    /// Ticks simulated so far.
    pub fn time(&self) -> (r: u32)
        ensures
            r == self.time,
    {
        self.time
    }

    pub fn speed(&self) -> (r: u32)
        ensures
            r == self.speed,
    {
        self.speed
    }

    /// Distance travelled so far, in 1/120 unreal units.
    pub fn distance_x120(&self) -> (r: u64)
        ensures
            r == self.dist,
    {
        self.dist
    }

    /// Remaining boost, in units of the meter (rounded down).
    pub fn boost(&self) -> (r: u8)
        requires
            self.wf(),
        ensures
            r as int == self.boost_ticks * 5 / BOOST_TICKS_PER_5 as int,
    {
        (self.boost_ticks * 5 / BOOST_TICKS_PER_5) as u8
    }
}

pub proof fn lemma_run_time(c: Car1D, n: nat, throttle: bool, boost: bool)
    requires
        c.wf(),
        c.time + n <= MAX_SIM_TICKS,
    ensures
        c.run_spec(n, throttle, boost).wf(),
        c.run_spec(n, throttle, boost).time == c.time + n,
    decreases n,
{
    if n > 0 {
        lemma_run_time(c, (n - 1) as nat, throttle, boost);
    }
}

pub proof fn lemma_run_add(c: Car1D, a: nat, b: nat, throttle: bool, boost: bool)
    ensures
        c.run_spec(a, throttle, boost).run_spec(b, throttle, boost) == c.run_spec(
            a + b,
            throttle,
            boost,
        ),
    decreases b,
{
    if b > 0 {
        lemma_run_add(c, a, (b - 1) as nat, throttle, boost);
        assert((a + b - 1) as nat == a + (b - 1) as nat);
    }
}

/// Coasting never speeds the car up, and the distance covered between two moments is at
/// most the elapsed ticks times the starting speed.
pub proof fn lemma_coast_gap(c: Car1D, a: nat, b: nat)
    requires
        c.wf(),
        a <= b,
        c.time + b <= MAX_SIM_TICKS,
    ensures
        c.run_spec(b, false, false).speed <= c.speed,
        c.run_spec(a, false, false).dist <= c.run_spec(b, false, false).dist,
        c.run_spec(b, false, false).dist - c.run_spec(a, false, false).dist <= (b - a) * c.speed,
    decreases b,
{
    if b > 0 {
        lemma_run_time(c, (b - 1) as nat, false, false);
        if a == b {
            lemma_coast_gap(c, (b - 1) as nat, (b - 1) as nat);
        } else {
            lemma_coast_gap(c, a, (b - 1) as nat);
            assert((b - a) * c.speed == (b - 1 - a) * c.speed + c.speed) by (nonlinear_arith);
        }
    }
}

/// On full throttle the car never slows down, so every tick adds at least the starting speed
/// to the distance.
pub proof fn lemma_throttle_gap(c: Car1D, n: nat, d: nat, boost: bool)
    requires
        c.wf(),
        c.time + n + d <= MAX_SIM_TICKS,
    ensures
        c.run_spec(n + d, true, boost).speed >= c.speed,
        c.run_spec(n + d, true, boost).dist >= c.run_spec(n, true, boost).dist + d * c.speed,
    decreases d,
{
    if d == 0 {
        lemma_throttle_speed(c, n, boost);
    } else {
        lemma_throttle_gap(c, n, (d - 1) as nat, boost);
        lemma_run_time(c, (n + d - 1) as nat, true, boost);
        assert((n + d - 1) as nat + 1 == n + d);
        lemma_throttle_speed(c, n + d, boost);
        assert(d * c.speed == (d - 1) * c.speed + c.speed) by (nonlinear_arith);
    }
}

pub proof fn lemma_throttle_speed(c: Car1D, n: nat, boost: bool)
    requires
        c.wf(),
        c.time + n <= MAX_SIM_TICKS,
    ensures
        c.run_spec(n, true, boost).speed >= c.speed,
    decreases n,
{
    if n > 0 {
        lemma_throttle_speed(c, (n - 1) as nat, boost);
        lemma_run_time(c, (n - 1) as nat, true, boost);
        let p = c.run_spec((n - 1) as nat, true, boost);
        assert(throttle_gain(p.speed as int) >= 0) by {
            if p.speed < THROTTLE_TAPER_SPEED {
                vstd::arithmetic::div_mod::lemma_div_pos_is_pos(
                    THROTTLE_GAIN_AT_REST * (THROTTLE_TAPER_SPEED - p.speed),
                    THROTTLE_TAPER_SPEED as int,
                );
            }
        }
    }
}

/// The state after a forward dodge begun at `speed`: how long until the car has landed and
/// can drive again, how fast it then goes, and how far it went (in 1/120 unreal units).
#[derive(Clone, Copy, Debug, PartialEq, Eq, Structural)]
pub struct Dodge1D {
    pub duration: u32,
    pub end_speed: u32,
    pub end_dist: u64,
}

/// Ticks from the jump until the dodge impulse.
pub const DODGE_JUMP_TICKS: u32 = 12;

/// Ticks from the jump until the car has landed after the dodge.
pub const DODGE_TOTAL_TICKS: u32 = 160;

pub open spec fn dodge_spec(speed: int) -> Dodge1D {
    let end_speed = min_int(speed + DODGE_FORWARD_IMPULSE, CAR_MAX_SPEED as int);
    Dodge1D {
        duration: DODGE_TOTAL_TICKS,
        end_speed: end_speed as u32,
        end_dist: (speed * DODGE_JUMP_TICKS + end_speed * (DODGE_TOTAL_TICKS - DODGE_JUMP_TICKS)) as u64,
    }
}

/// A forward dodge from `speed`: the speed is kept through the jump, then the impulse is
/// added (up to top speed) and kept until landing.
pub fn forward_dodge(speed: u32) -> (r: Dodge1D)
    requires
        speed <= CAR_MAX_SPEED,
    ensures
        r == dodge_spec(speed as int),
{
    let end_speed = if speed + DODGE_FORWARD_IMPULSE <= CAR_MAX_SPEED {
        speed + DODGE_FORWARD_IMPULSE
    } else {
        CAR_MAX_SPEED
    };
    assert(speed as u64 * 12 <= 27600 && end_speed as u64 * 148 <= 340400) by (nonlinear_arith)
        requires
            speed <= 2300,
            end_speed <= 2300,
    ;
    Dodge1D {
        duration: DODGE_TOTAL_TICKS,
        end_speed,
        end_dist: speed as u64 * DODGE_JUMP_TICKS as u64 + end_speed as u64 * (DODGE_TOTAL_TICKS
            - DODGE_JUMP_TICKS) as u64,
    }
}

} // verus!
