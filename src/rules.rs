use crate::geometry::{Vec2, Vec3};
use crate::trajectory::{at_time_or_last_spec, lower_bound, BallFrame, BallTrajectory};
use vstd::prelude::*;

verus! {

/// Distance (unreal units) between a recorded prediction and the new forecast that counts
/// as the ball having been disturbed.
pub const ERROR_THRESHOLD: i64 = 50;

/// How far ahead (ticks) the prediction that is checked next tick is taken.
pub const LOOKAHEAD_TICKS: u32 = 12;

/// Where the ball was predicted to be, and at what game time.
#[derive(Clone, Copy, Debug, PartialEq, Eq, Structural)]
pub struct Prediction {
    pub t: u64,
    pub loc: Vec3,
}

/// Watches the ball's forecast from tick to tick, and tells when it stops agreeing with
/// itself (someone touched the ball), so that plans built on it can be dropped.
pub struct SameBallTrajectory {
    pub prediction: Option<Prediction>,
}

/// The frame the new forecast gives for the recorded prediction's time: the one at or after
/// it, or the first frame if that time is already past or beyond the forecast.
pub open spec fn compared_frame(s: Seq<BallFrame>, pred: Prediction, now: u32) -> BallFrame {
    let rel = pred.t - now;
    if rel < 0 || rel > s.last().t {
        s[0]
    } else {
        s[lower_bound(s, rel)]
    }
}

pub open spec fn diverged_spec(s: Seq<BallFrame>, pred: Option<Prediction>, now: u32) -> bool {
    match pred {
        None => false,
        Some(p) => {
            let f = compared_frame(s, p, now);
            let dx = p.loc.x - f.loc.x;
            let dy = p.loc.y - f.loc.y;
            dx * dx + dy * dy >= ERROR_THRESHOLD * ERROR_THRESHOLD
        },
    }
}

impl SameBallTrajectory {
    pub fn new() -> (r: SameBallTrajectory)
        ensures
            r.prediction is None,
    {
        SameBallTrajectory { prediction: None }
    }

    /// `true` (abort) if the forecast disagrees with the one recorded last tick by
    /// `ERROR_THRESHOLD` or more in the ground plane. Otherwise records where the forecast puts
    /// the ball `LOOKAHEAD_TICKS` from now and returns `false`.
    pub fn execute_old(&mut self, now: u32, traj: &BallTrajectory) -> (r: bool)
        requires
            traj.wf(),
        ensures
            r == diverged_spec(traj@, old(self).prediction, now),
            r ==> final(self).prediction == old(self).prediction,
            !r ==> final(self).prediction == Some(
                Prediction {
                    t: (now + at_time_or_last_spec(traj@, LOOKAHEAD_TICKS as int).t) as u64,
                    loc: at_time_or_last_spec(traj@, LOOKAHEAD_TICKS as int).loc,
                },
            ),
    {
        if self.diverged(now, traj) {
            return true;
        }
        let frame = traj.at_time_or_last(LOOKAHEAD_TICKS);
        self.prediction = Some(Prediction { t: now as u64 + frame.t as u64, loc: frame.loc });
        false
    }

    fn diverged(&self, now: u32, traj: &BallTrajectory) -> (r: bool)
        requires
            traj.wf(),
        ensures
            r == diverged_spec(traj@, self.prediction, now),
    {
        let p = match self.prediction {
            Some(p) => p,
            None => {
                return false;
            },
        };
        let last_t = traj.last().t;
        let frame = if p.t < now as u64 || p.t - now as u64 > last_t as u64 {
            *traj.start()
        } else {
            match traj.at_time((p.t - now as u64) as u32) {
                Some(f) => *f,
                None => *traj.start(),
            }
        };
        let dx = p.loc.x as i64 - frame.loc.x as i64;
        let dy = p.loc.y as i64 - frame.loc.y as i64;
        assert(0 <= dx * dx <= 0x1_0000_0000 && 0 <= dy * dy <= 0x1_0000_0000) by (nonlinear_arith)
            requires
                -65536 <= dx <= 65536,
                -65536 <= dy <= 65536,
        ;
        dx * dx + dy * dy >= ERROR_THRESHOLD * ERROR_THRESHOLD
    }
}

} // verus!
