use crate::geometry::Vec3;
use vstd::prelude::*;

verus! {

/// Physics ticks per second.
pub const TICKS_PER_SECOND: u32 = 120;

/// One predicted ball state: `t` ticks after the forecast began, sampled every `dt` ticks.
#[derive(Clone, Copy, Debug, PartialEq, Eq, Structural)]
pub struct BallFrame {
    pub t: u32,
    pub dt: u32,
    pub loc: Vec3,
    pub vel: Vec3,
}

impl BallFrame {
    pub fn dt(&self) -> (r: u32)
        ensures
            r == self.dt,
    {
        self.dt
    }
}

/// A ball position and velocity, as an outside physics oracle reports it.
#[derive(Clone, Copy, Debug, PartialEq, Eq, Structural)]
pub struct BallState {
    pub loc: Vec3,
    pub vel: Vec3,
}

/// Frames ordered by time, never empty.
pub open spec fn frames_ok(s: Seq<BallFrame>) -> bool {
    &&& s.len() > 0
    &&& forall|i: int, j: int| 0 <= i <= j < s.len() ==> #[trigger] s[i].t <= #[trigger] s[j].t
}

/// Index of the first frame whose time is at least `t` (the length if there is none).
pub open spec fn is_lower_bound(s: Seq<BallFrame>, t: int, i: int) -> bool {
    &&& 0 <= i <= s.len()
    &&& forall|j: int| 0 <= j < i ==> (#[trigger] s[j]).t < t
    &&& forall|j: int| i <= j < s.len() ==> (#[trigger] s[j]).t >= t
}

pub open spec fn lower_bound(s: Seq<BallFrame>, t: int) -> int {
    choose|i: int| is_lower_bound(s, t, i)
}

/// The first frame at or after `t`, or the last frame if the forecast ends before.
pub open spec fn at_time_or_last_spec(s: Seq<BallFrame>, t: int) -> BallFrame {
    if t <= s.last().t {
        s[lower_bound(s, t)]
    } else {
        s.last()
    }
}

/// `s` shifted so that its first frame sits at time zero.
pub open spec fn rezeroed(s: Seq<BallFrame>) -> Seq<BallFrame> {
    s.map_values(|f: BallFrame| BallFrame { t: (f.t - s[0].t) as u32, ..f })
}

/// What is left of a forecast once `delay` ticks have passed, with the time origin moved to
/// the first remaining frame; the last frame alone, at time zero, when the forecast ends
/// before `delay`.
pub open spec fn slice_spec(s: Seq<BallFrame>, delay: int) -> Seq<BallFrame> {
    let i = lower_bound(s, delay);
    if i < s.len() {
        rezeroed(s.subrange(i, s.len() as int))
    } else {
        seq![BallFrame { t: 0, ..s.last() }]
    }
}

/// Every `factor`-th frame, each relabelled with the coarser step `dt`.
pub open spec fn stepped_spec(s: Seq<BallFrame>, factor: int, dt: u32) -> Seq<BallFrame> {
    Seq::new(
        ((s.len() + factor - 1) / factor) as nat,
        |k: int| BallFrame { dt, ..s[k * factor] },
    )
}

pub proof fn lemma_lower_bound_unique(s: Seq<BallFrame>, t: int, i: int)
    requires
        is_lower_bound(s, t, i),
    ensures
        lower_bound(s, t) == i,
{
    let k = lower_bound(s, t);
    assert(is_lower_bound(s, t, k));
    if k < i {
        assert(s[k].t < t);
    } else if i < k {
        assert(s[i].t < t);
    }
}

proof fn lemma_lower_bound_from(s: Seq<BallFrame>, t: int, i: int)
    requires
        frames_ok(s),
        0 <= i <= s.len(),
        forall|j: int| 0 <= j < i ==> (#[trigger] s[j]).t < t,
    ensures
        exists|k: int| is_lower_bound(s, t, k),
    decreases s.len() - i,
{
    if i == s.len() || s[i].t >= t {
        assert forall|j: int| i <= j < s.len() implies (#[trigger] s[j]).t >= t by {
            assert(s[i].t <= s[j].t);
        }
        assert(is_lower_bound(s, t, i));
    } else {
        lemma_lower_bound_from(s, t, i + 1);
    }
}

/// In an ordered forecast, the first frame at or after any time is well defined.
pub proof fn lemma_lower_bound_exists(s: Seq<BallFrame>, t: int)
    requires
        frames_ok(s),
    ensures
        is_lower_bound(s, t, lower_bound(s, t)),
{
    lemma_lower_bound_from(s, t, 0);
}

/// A time-ordered forecast of the ball, starting now.
pub struct BallTrajectory {
    frames: Vec<BallFrame>,
}

impl View for BallTrajectory {
    type V = Seq<BallFrame>;

    closed spec fn view(&self) -> Seq<BallFrame> {
        self.frames@
    }
}

impl BallTrajectory {
    pub open spec fn wf(&self) -> bool {
        frames_ok(self@)
    }

    pub fn new(frames: Vec<BallFrame>) -> (r: BallTrajectory)
        requires
            frames_ok(frames@),
        ensures
            r.wf(),
            r@ == frames@,
    {
        BallTrajectory { frames }
    }

    /// Records what an outside physics oracle predicted, one state every `dt` ticks, the
    /// current state first.
    pub fn from_states(states: &Vec<BallState>, dt: u32) -> (r: BallTrajectory)
        requires
            states.len() > 0,
            dt > 0,
            states.len() * dt <= u32::MAX,
        ensures
            r.wf(),
            r@.len() == states.len(),
            forall|k: int|
                0 <= k < states.len() ==> (#[trigger] r@[k]) == (BallFrame {
                    t: (k * dt) as u32,
                    dt,
                    loc: states[k].loc,
                    vel: states[k].vel,
                }),
    {
        let mut frames: Vec<BallFrame> = Vec::new();
        let mut k: usize = 0;
        while k < states.len()
            invariant
                k <= states.len(),
                dt > 0,
                states.len() * dt <= u32::MAX,
                frames@.len() == k,
                forall|j: int|
                    0 <= j < k ==> (#[trigger] frames@[j]) == (BallFrame {
                        t: (j * dt) as u32,
                        dt,
                        loc: states[j].loc,
                        vel: states[j].vel,
                    }),
            decreases states.len() - k,
        {
            assert(k * dt <= states.len() * dt && k <= states.len() * dt) by (nonlinear_arith)
                requires
                    k < states.len(),
                    dt > 0,
            ;
            let t: u32 = k as u32 * dt;
            frames.push(BallFrame { t, dt, loc: states[k].loc, vel: states[k].vel });
            k = k + 1;
        }
        assert forall|i: int, j: int| 0 <= i <= j < frames@.len() implies #[trigger] frames@[i].t
            <= #[trigger] frames@[j].t by {
            assert(i * dt <= j * dt) by (nonlinear_arith)
                requires
                    0 <= i <= j,
            ;
            assert(j * dt <= states.len() * dt) by (nonlinear_arith)
                requires
                    0 <= j < states.len(),
            ;
        }
        BallTrajectory { frames }
    }

    /// Records what an outside oracle predicted at the given game times (ticks), moving the
    /// time origin to the first of them.
    pub fn from_timed_states(times: &Vec<u32>, states: &Vec<BallState>, dt: u32) -> (r:
        BallTrajectory)
        requires
            times.len() > 0,
            times.len() == states.len(),
            forall|i: int, j: int| 0 <= i <= j < times.len() ==> times[i] <= times[j],
        ensures
            r.wf(),
            r@.len() == states.len(),
            forall|k: int|
                0 <= k < states.len() ==> (#[trigger] r@[k]) == (BallFrame {
                    t: (times[k] - times[0]) as u32,
                    dt,
                    loc: states[k].loc,
                    vel: states[k].vel,
                }),
    {
        let start = times[0];
        let mut frames: Vec<BallFrame> = Vec::new();
        let mut k: usize = 0;
        while k < states.len()
            invariant
                k <= states.len(),
                times.len() == states.len(),
                start == times[0],
                forall|i: int, j: int| 0 <= i <= j < times.len() ==> times[i] <= times[j],
                frames@.len() == k,
                forall|j: int|
                    0 <= j < k ==> (#[trigger] frames@[j]) == (BallFrame {
                        t: (times[j] - times[0]) as u32,
                        dt,
                        loc: states[j].loc,
                        vel: states[j].vel,
                    }),
            decreases states.len() - k,
        {
            assert(times[0] <= times[k as int]);
            frames.push(BallFrame { t: times[k] - start, dt, loc: states[k].loc, vel: states[k].vel });
            k = k + 1;
        }
        assert forall|i: int, j: int| 0 <= i <= j < frames@.len() implies #[trigger] frames@[i].t
            <= #[trigger] frames@[j].t by {
            assert(times[0] <= times[i] && times[i] <= times[j]);
        }
        BallTrajectory { frames }
    }

    pub fn len(&self) -> (r: usize)
        ensures
            r == self@.len(),
    {
        self.frames.len()
    }

    pub fn frame(&self, i: usize) -> (r: &BallFrame)
        requires
            i < self@.len(),
        ensures
            *r == self@[i as int],
    {
        &self.frames[i]
    }

    /// The starting frame of the prediction, i.e. where the ball is right now.
    pub fn start(&self) -> (r: &BallFrame)
        requires
            self.wf(),
        ensures
            *r == self@[0],
    {
        &self.frames[0]
    }

    pub fn last(&self) -> (r: &BallFrame)
        requires
            self.wf(),
        ensures
            *r == self@.last(),
    {
        &self.frames[self.frames.len() - 1]
    }

    /// Index of the first frame at or after `t`, or the length if the forecast ends before.
    fn search(&self, t: u32) -> (r: usize)
        requires
            self.wf(),
        ensures
            is_lower_bound(self@, t as int, r as int),
            r as int == lower_bound(self@, t as int),
    {
        let mut lo: usize = 0;
        let mut hi: usize = self.frames.len();
        while lo < hi
            invariant
                frames_ok(self.frames@),
                0 <= lo <= hi <= self.frames@.len(),
                forall|j: int| 0 <= j < lo ==> (#[trigger] self.frames@[j]).t < t,
                forall|j: int| hi <= j < self.frames@.len() ==> (#[trigger] self.frames@[j]).t >= t,
            decreases hi - lo,
        {
            let mid = lo + (hi - lo) / 2;
            if self.frames[mid].t < t {
                assert forall|j: int| 0 <= j < mid + 1 implies (#[trigger] self.frames@[j]).t < t by {
                    assert(self.frames@[j].t <= self.frames@[mid as int].t);
                }
                lo = mid + 1;
            } else {
                assert forall|j: int| mid <= j < self.frames@.len() implies (
                #[trigger] self.frames@[j]).t >= t by {
                    assert(self.frames@[mid as int].t <= self.frames@[j].t);
                }
                hi = mid;
            }
        }
        proof {
            lemma_lower_bound_unique(self@, t as int, lo as int);
        }
        lo
    }

    /// Skips the first `delay` ticks of the forecast (to model reaction time) and moves the
    /// time origin to the first frame that is left.
    pub fn hacky_expensive_slice(&self, delay: u32) -> (r: BallTrajectory)
        requires
            self.wf(),
        ensures
            r.wf(),
            r@ == slice_spec(self@, delay as int),
            r@[0].t == 0,
            lower_bound(self@, delay as int) < self@.len() ==> r@.len() == self@.len()
                - lower_bound(self@, delay as int),
    {
        let i = self.search(delay);
        let n = self.frames.len();
        if i >= n {
            let last = self.frames[n - 1];
            let mut frames: Vec<BallFrame> = Vec::new();
            frames.push(BallFrame { t: 0, ..last });
            proof {
                assert(frames@ =~= slice_spec(self@, delay as int));
            }
            return BallTrajectory { frames };
        }
        let start_time = self.frames[i].t;
        let mut frames: Vec<BallFrame> = Vec::new();
        let mut k: usize = i;
        while k < n
            invariant
                frames_ok(self.frames@),
                n == self.frames@.len(),
                i <= k <= n,
                i < n,
                start_time == self.frames@[i as int].t,
                frames@.len() == k - i,
                forall|j: int|
                    0 <= j < k - i ==> (#[trigger] frames@[j]) == (BallFrame {
                        t: (self.frames@[i + j].t - start_time) as u32,
                        ..self.frames@[i + j]
                    }),
            decreases n - k,
        {
            let f = self.frames[k];
            assert(self.frames@[i as int].t <= self.frames@[k as int].t);
            frames.push(BallFrame { t: f.t - start_time, ..f });
            k = k + 1;
        }
        proof {
            let sub = self@.subrange(i as int, n as int);
            assert(frames@ =~= rezeroed(sub));
            assert forall|a: int, b: int| 0 <= a <= b < frames@.len() implies #[trigger] frames@[a].t
                <= #[trigger] frames@[b].t by {
                assert(self.frames@[i + a].t <= self.frames@[i + b].t);
            }
        }
        BallTrajectory { frames }
    }

    /// The first frame at or after time `t`; `None` exactly when the forecast ends before `t`.
    pub fn at_time(&self, t: u32) -> (r: Option<&BallFrame>)
        requires
            self.wf(),
        ensures
            r.is_none() <==> t > self@.last().t,
            r matches Some(f) ==> {
                let i = lower_bound(self@, t as int);
                &&& 0 <= i < self@.len()
                &&& *f == self@[i]
                &&& f.t >= t
                &&& forall|j: int| 0 <= j < i ==> (#[trigger] self@[j]).t < t
            },
    {
        let i = self.search(t);
        if i >= self.frames.len() {
            proof {
                assert(self@[self@.len() - 1].t < t);
            }
            None
        } else {
            proof {
                assert(self@[i as int].t <= self@[self@.len() - 1].t);
            }
            Some(&self.frames[i])
        }
    }

    /// The first frame at or after time `t`, or the last frame if the forecast ends before.
    pub fn at_time_or_last(&self, t: u32) -> (r: &BallFrame)
        requires
            self.wf(),
        ensures
            *r == at_time_or_last_spec(self@, t as int),
    {
        match self.at_time(t) {
            Some(f) => f,
            None => self.last(),
        }
    }

    /// Every `dt / start().dt`-th frame, relabelled with step `dt`; `dt` must be a whole
    /// multiple of the forecast's own step.
    pub fn iter_step_by(&self, dt: u32) -> (r: Vec<BallFrame>)
        requires
            self.wf(),
            self@[0].dt > 0,
            dt > 0,
            dt % self@[0].dt == 0,
        ensures
            r@ == stepped_spec(self@, (dt / self@[0].dt) as int, dt),
    {
        let factor = (dt / self.frames[0].dt) as usize;
        assert(factor >= 1) by (nonlinear_arith)
            requires
                factor == dt / self@[0].dt,
                dt % self@[0].dt == 0,
                dt > 0,
                self@[0].dt > 0,
        ;
        let n = self.frames.len();
        let count = (n - 1) / factor + 1;
        proof {
            let (ni, fi) = (n as int, factor as int);
            assert(count as int == (ni - 1) / fi + 1);
            let (q0, r0) = ((ni - 1) / fi, (ni - 1) % fi);
            vstd::arithmetic::div_mod::lemma_fundamental_div_mod(ni - 1, fi);
            vstd::arithmetic::div_mod::lemma_mod_pos_bound(ni - 1, fi);
            assert((q0 + 1) * fi == fi * q0 + fi) by (nonlinear_arith);
            vstd::arithmetic::div_mod::lemma_fundamental_div_mod_converse(
                ni + fi - 1,
                fi,
                q0 + 1,
                r0,
            );
        }
        let mut out: Vec<BallFrame> = Vec::new();
        let mut k: usize = 0;
        while k < count
            invariant
                factor >= 1,
                n == self.frames@.len(),
                n >= 1,
                count as int == (n as int - 1) / (factor as int) + 1,
                k <= count,
                out@.len() == k,
                forall|j: int|
                    0 <= j < k ==> (#[trigger] out@[j]) == (BallFrame {
                        dt,
                        ..self.frames@[j * factor]
                    }),
            decreases count - k,
        {
            proof {
                let (ki, ni, fi) = (k as int, n as int, factor as int);
                assert(ki <= (ni - 1) / fi);
                vstd::arithmetic::div_mod::lemma_fundamental_div_mod(ni - 1, fi);
                assert(ki * fi <= ((ni - 1) / fi) * fi) by (nonlinear_arith)
                    requires
                        ki <= (ni - 1) / fi,
                        fi >= 1,
                ;
                assert(ki * fi < ni);
            }
            let f = self.frames[k * factor];
            out.push(BallFrame { dt, ..f });
            k = k + 1;
        }
        proof {
            assert(out@ =~= stepped_spec(self@, factor as int, dt));
        }
        out
    }
}

} // verus!
