use vstd::prelude::*;

verus! {

/// Full deflection of an analog control, in thousandths.
pub const AXIS_MAX: i16 = 1000;

/// The controller state sent to the game for one tick. Analog axes are in thousandths of
/// full deflection.
#[derive(Clone, Copy, Debug, PartialEq, Eq, Structural)]
pub struct Command {
    pub throttle: i16,
    pub steer: i16,
    pub pitch: i16,
    pub yaw: i16,
    pub roll: i16,
    pub jump: bool,
    pub boost: bool,
    pub handbrake: bool,
}

pub open spec fn clamp_spec(v: int) -> int {
    if v < -1000 {
        -1000
    } else if v > 1000 {
        1000
    } else {
        v
    }
}

pub open spec fn axis_ok(v: i16) -> bool {
    -1000 <= v <= 1000
}

pub fn clamp_axis(v: i16) -> (r: i16)
    ensures
        r as int == clamp_spec(v as int),
{
    if v < -AXIS_MAX {
        -AXIS_MAX
    } else if v > AXIS_MAX {
        AXIS_MAX
    } else {
        v
    }
}

impl Command {
    /// All axes centred, no buttons: the safe command.
    pub open spec fn neutral_spec() -> Command {
        Command {
            throttle: 0,
            steer: 0,
            pitch: 0,
            yaw: 0,
            roll: 0,
            jump: false,
            boost: false,
            handbrake: false,
        }
    }

    pub fn neutral() -> (r: Command)
        ensures
            r == Command::neutral_spec(),
    {
        Command {
            throttle: 0,
            steer: 0,
            pitch: 0,
            yaw: 0,
            roll: 0,
            jump: false,
            boost: false,
            handbrake: false,
        }
    }

    pub open spec fn is_clamped(self) -> bool {
        axis_ok(self.throttle) && axis_ok(self.steer) && axis_ok(self.pitch) && axis_ok(self.yaw)
            && axis_ok(self.roll)
    }

    /// Every analog axis limited to full deflection; buttons unchanged.
    pub open spec fn clamped_spec(self) -> Command {
        Command {
            throttle: clamp_spec(self.throttle as int) as i16,
            steer: clamp_spec(self.steer as int) as i16,
            pitch: clamp_spec(self.pitch as int) as i16,
            yaw: clamp_spec(self.yaw as int) as i16,
            roll: clamp_spec(self.roll as int) as i16,
            ..self
        }
    }

    /// Every analog axis limited to full deflection; buttons unchanged.
    pub fn clamped(&self) -> (r: Command)
        ensures
            r == self.clamped_spec(),
            r.throttle as int == clamp_spec(self.throttle as int),
            r.steer as int == clamp_spec(self.steer as int),
            r.pitch as int == clamp_spec(self.pitch as int),
            r.yaw as int == clamp_spec(self.yaw as int),
            r.roll as int == clamp_spec(self.roll as int),
            r.jump == self.jump,
            r.boost == self.boost,
            r.handbrake == self.handbrake,
            r.is_clamped(),
    {
        Command {
            throttle: clamp_axis(self.throttle),
            steer: clamp_axis(self.steer),
            pitch: clamp_axis(self.pitch),
            yaw: clamp_axis(self.yaw),
            roll: clamp_axis(self.roll),
            jump: self.jump,
            boost: self.boost,
            handbrake: self.handbrake,
        }
    }
}

impl Default for Command {
    fn default() -> (r: Command)
        ensures
            r == Command::neutral_spec(),
    {
        Command::neutral()
    }
}

} // verus!
