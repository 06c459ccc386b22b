use vstd::prelude::*;

use crate::tank::proto::{spec_tracks, Direction, Track};

verus! {

/// Share of the PWM range that a running track gets, in thousandths.
pub const DRIVE_DUTY_PERMILLE: u32 = 700;

/// What one H-bridge channel is set to: its two direction inputs and its PWM duty.
#[derive(Copy, Clone, Debug, PartialEq, Eq, Structural)]
pub struct MotorCommand {
    pub in1_high: bool,
    pub in2_high: bool,
    pub duty: u32,
}

/// The bridge setting for a track at the given running duty: forward drives IN1,
/// reverse drives IN2, and a halted track has both inputs low and no duty.
pub open spec fn spec_command(track: Track, duty: u32) -> MotorCommand {
    match track {
        Track::Forward => MotorCommand { in1_high: true, in2_high: false, duty },
        Track::Reverse => MotorCommand { in1_high: false, in2_high: true, duty },
        Track::Halt => MotorCommand { in1_high: false, in2_high: false, duty: 0 },
    }
}

/// The running duty for a PWM channel whose full scale is `max_duty`.
pub open spec fn spec_drive_duty(max_duty: u32) -> nat {
    (max_duty * DRIVE_DUTY_PERMILLE / 1000) as nat
}

impl Track {
    /// The bridge setting for this track at the running duty `duty`.
    pub fn command(self, duty: u32) -> (res: MotorCommand)
        ensures
            res == spec_command(self, duty),
            !(res.in1_high && res.in2_high),
    {
        match self {
            Track::Forward => MotorCommand { in1_high: true, in2_high: false, duty },
            Track::Reverse => MotorCommand { in1_high: false, in2_high: true, duty },
            Track::Halt => MotorCommand { in1_high: false, in2_high: false, duty: 0 },
        }
    }
}

/// The running duty for a PWM channel whose full scale is `max_duty`.
pub fn drive_duty(max_duty: u32) -> (res: u32)
    requires
        max_duty * DRIVE_DUTY_PERMILLE <= u32::MAX,
    ensures
        res == spec_drive_duty(max_duty),
        res <= max_duty,
{
    max_duty * DRIVE_DUTY_PERMILLE / 1000
}

/// The bridge settings `(left, right)` that drive the tank in `dir`.
pub fn drive_plan(dir: Direction, duty: u32) -> (res: (MotorCommand, MotorCommand))
    ensures
        res.0 == spec_command(spec_tracks(dir).0, duty),
        res.1 == spec_command(spec_tracks(dir).1, duty),
{
    let (left, right) = dir.tracks();
    (left.command(duty), right.command(duty))
}

/// No bridge setting drives both inputs of a channel high, and a channel
/// carries duty exactly when its track runs.
pub proof fn lemma_commands_are_safe(track: Track, duty: u32)
    ensures
        !(spec_command(track, duty).in1_high && spec_command(track, duty).in2_high),
        (spec_command(track, duty).in1_high || spec_command(track, duty).in2_high) <==> track
            != Track::Halt,
        track == Track::Halt ==> spec_command(track, duty).duty == 0,
        track != Track::Halt ==> spec_command(track, duty).duty == duty,
{
}

/// Stopping halts both tracks, and it is the only direction that halts either.
pub proof fn lemma_only_stop_halts(dir: Direction)
    ensures
        (spec_tracks(dir).0 == Track::Halt || spec_tracks(dir).1 == Track::Halt) <==> dir
            == Direction::Stop,
        dir == Direction::Stop ==> spec_tracks(dir) == (Track::Halt, Track::Halt),
{
}

/// The opposite of a running track.
pub open spec fn reversed(track: Track) -> Track {
    match track {
        Track::Forward => Track::Reverse,
        Track::Reverse => Track::Forward,
        Track::Halt => Track::Halt,
    }
}

/// Down runs each track opposite to up, and left is right mirrored: each track
/// of a left turn does what the other track does in a right turn.
pub proof fn lemma_tracks_symmetry()
    ensures
        spec_tracks(Direction::Down).0 == reversed(spec_tracks(Direction::Up).0),
        spec_tracks(Direction::Down).1 == reversed(spec_tracks(Direction::Up).1),
        spec_tracks(Direction::Left).0 == spec_tracks(Direction::Right).1,
        spec_tracks(Direction::Left).1 == spec_tracks(Direction::Right).0,
        spec_tracks(Direction::Left).0 == reversed(spec_tracks(Direction::Left).1),
{
}

} // verus!
