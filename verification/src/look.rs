//! The look step: pointer motion turns the player's view.
//!
//! Angles count micro-radians. Pointer motion counts device steps, and a
//! sensitivity is the angle turned per step.

use vstd::prelude::*;
use crate::arith::{
    clamp, clamp_spec, lemma_wrap_angle, wrap_angle, wrap_angle_spec, FULL_TURN, HALF_TURN,
};

verus! {

/// The steepest pitch, up or down: a hundredth of a radian short of a
/// quarter turn.
pub const PITCH_LIMIT: i32 = 1_560_796;

/// Pointer motion accumulated since the last tick; zero when the pointer did
/// not move.
#[derive(Clone, Copy, Debug, PartialEq, Eq, Structural)]
pub struct PointerDelta {
    pub x: i32,
    pub y: i32,
}

/// The angle turned per step of pointer motion: `x` scales yaw, `y` scales
/// pitch.
#[derive(Clone, Copy, Debug, PartialEq, Eq, Structural)]
pub struct CameraSensitivity {
    pub x: i32,
    pub y: i32,
}

/// A view direction as yaw, then pitch, then roll.
#[derive(Clone, Copy, Debug, PartialEq, Eq, Structural)]
pub struct Orientation {
    pub yaw: i32,
    pub pitch: i32,
    pub roll: i32,
}

impl PointerDelta {
    /// The pointer did not move.
    pub open spec fn is_zero_spec(self) -> bool {
        self.x == 0 && self.y == 0
    }

    /// Whether the pointer did not move.
    pub fn is_zero(&self) -> (out: bool)
        ensures
            out == self.is_zero_spec(),
    {
        self.x == 0 && self.y == 0
    }
}

impl CameraSensitivity {
    /// A sensitivity of `x` micro-radians of yaw and `y` of pitch per step.
    pub fn new(x: i32, y: i32) -> (out: CameraSensitivity)
        ensures
            out == (CameraSensitivity { x, y }),
    {
        CameraSensitivity { x, y }
    }
}

impl Default for CameraSensitivity {
    /// Three milliradians of yaw and two of pitch per step.
    fn default() -> (out: CameraSensitivity)
        ensures
            out == (CameraSensitivity { x: 3_000, y: 2_000 }),
    {
        CameraSensitivity { x: 3_000, y: 2_000 }
    }
}

impl Orientation {
    /// The pitch is within [`PITCH_LIMIT`] of level.
    pub open spec fn pitch_in_limit(self) -> bool {
        -PITCH_LIMIT <= self.pitch <= PITCH_LIMIT
    }

    /// The orientation is one that the look step produces: yaw within half a
    /// turn of zero, pitch within the limit, no roll.
    pub open spec fn wf(self) -> bool {
        &&& -HALF_TURN < self.yaw <= HALF_TURN
        &&& self.pitch_in_limit()
        &&& self.roll == 0
    }

    /// Looking along the forward axis, level.
    pub fn identity() -> (out: Orientation)
        ensures
            out == (Orientation { yaw: 0, pitch: 0, roll: 0 }),
            out.wf(),
    {
        Orientation { yaw: 0, pitch: 0, roll: 0 }
    }

    /// The orientation with the given yaw, brought within half a turn of
    /// zero, and the given pitch, held to the limit.
    pub fn from_yaw_pitch(yaw: i32, pitch: i32) -> (out: Orientation)
        ensures
            out.wf(),
            out.yaw == wrap_angle_spec(yaw as int),
            out.pitch == clamp_spec(pitch as int, -PITCH_LIMIT as int, PITCH_LIMIT as int),
    {
        proof {
            lemma_wrap_angle(yaw as int);
        }
        Orientation {
            yaw: wrap_angle(yaw as i64),
            pitch: clamp(pitch as i64, -PITCH_LIMIT, PITCH_LIMIT),
            roll: 0,
        }
    }
}

/// The orientation after one look step.
///
/// Without pointer motion it is the old one. Otherwise yaw and pitch each
/// turn against the motion, scaled by the sensitivity; yaw wraps around the
/// turn, pitch stops at the limit, and roll is zero.
pub open spec fn look_spec(
    orientation: Orientation,
    delta: PointerDelta,
    sensitivity: CameraSensitivity,
) -> Orientation {
    if delta.is_zero_spec() {
        orientation
    } else {
        Orientation {
            yaw: wrap_angle_spec(orientation.yaw - delta.x * sensitivity.x) as i32,
            pitch: clamp_spec(
                orientation.pitch - delta.y * sensitivity.y,
                -PITCH_LIMIT as int,
                PITCH_LIMIT as int,
            ) as i32,
            roll: 0,
        }
    }
}

/// The orientation after one look step for each of `deltas`, in order.
pub open spec fn look_all_spec(
    orientation: Orientation,
    deltas: Seq<PointerDelta>,
    sensitivity: CameraSensitivity,
) -> Orientation
    decreases deltas.len(),
{
    if deltas.len() == 0 {
        orientation
    } else {
        look_spec(look_all_spec(orientation, deltas.drop_last(), sensitivity), deltas.last(), sensitivity)
    }
}

/// Runs the look step on `orientation`.
///
/// A still pointer leaves the orientation untouched, whatever it holds. Any
/// motion, however it is scaled, leaves a well-formed orientation behind.
pub fn player_view(
    delta: PointerDelta,
    orientation: &mut Orientation,
    sensitivity: &CameraSensitivity,
)
    ensures
        *final(orientation) == look_spec(*old(orientation), delta, *sensitivity),
        delta.is_zero_spec() ==> *final(orientation) == *old(orientation),
        !delta.is_zero_spec() ==> final(orientation).wf(),
        old(orientation).wf() ==> final(orientation).wf(),
{
    if !delta.is_zero() {
        assert(-0x4000_0000_0000_0000 <= delta.x * sensitivity.x <= 0x4000_0000_0000_0000)
            by (nonlinear_arith)
            requires
                -0x8000_0000 <= delta.x <= 0x7fff_ffff,
                -0x8000_0000 <= sensitivity.x <= 0x7fff_ffff,
        ;
        assert(-0x4000_0000_0000_0000 <= delta.y * sensitivity.y <= 0x4000_0000_0000_0000)
            by (nonlinear_arith)
            requires
                -0x8000_0000 <= delta.y <= 0x7fff_ffff,
                -0x8000_0000 <= sensitivity.y <= 0x7fff_ffff,
        ;
        let delta_yaw: i64 = -(delta.x as i64 * sensitivity.x as i64);
        let delta_pitch: i64 = -(delta.y as i64 * sensitivity.y as i64);
        proof {
            lemma_wrap_angle(orientation.yaw + delta_yaw);
        }
        let yaw = wrap_angle(orientation.yaw as i64 + delta_yaw);
        let pitch = clamp(orientation.pitch as i64 + delta_pitch, -PITCH_LIMIT, PITCH_LIMIT);
        *orientation = Orientation { yaw, pitch, roll: 0 };
    }
}

/// A look step without pointer motion leaves the orientation as it was.
pub proof fn lemma_still_pointer_keeps_orientation(
    orientation: Orientation,
    delta: PointerDelta,
    sensitivity: CameraSensitivity,
)
    requires
        delta.x == 0,
        delta.y == 0,
    ensures
        look_spec(orientation, delta, sensitivity) == orientation,
{
}

/// A look step with pointer motion turns the yaw by the motion times the
/// sensitivity, against the motion, up to whole turns; and the pitch
/// likewise, exactly, wherever that stays within the limit.
pub proof fn lemma_look_turns_against_motion(
    orientation: Orientation,
    delta: PointerDelta,
    sensitivity: CameraSensitivity,
)
    requires
        !delta.is_zero_spec(),
    ensures
        ({
            let after = look_spec(orientation, delta, sensitivity);
            let yaw = orientation.yaw - delta.x * sensitivity.x;
            let pitch = orientation.pitch - delta.y * sensitivity.y;
            &&& (after.yaw - yaw) % (FULL_TURN as int) == 0
            &&& -HALF_TURN < yaw <= HALF_TURN ==> after.yaw == yaw
            &&& -PITCH_LIMIT <= pitch <= PITCH_LIMIT ==> after.pitch == pitch
            &&& pitch > PITCH_LIMIT ==> after.pitch == PITCH_LIMIT
            &&& pitch < -PITCH_LIMIT ==> after.pitch == -PITCH_LIMIT
        }),
{
    lemma_wrap_angle(orientation.yaw - delta.x * sensitivity.x);
}

/// A look step with pointer motion gives a well-formed orientation whatever
/// it started from, and any look step keeps a well-formed one well-formed.
pub proof fn lemma_look_step_wf(
    orientation: Orientation,
    delta: PointerDelta,
    sensitivity: CameraSensitivity,
)
    ensures
        !delta.is_zero_spec() ==> look_spec(orientation, delta, sensitivity).wf(),
        orientation.wf() ==> look_spec(orientation, delta, sensitivity).wf(),
        orientation.pitch_in_limit() ==> look_spec(orientation, delta, sensitivity).pitch_in_limit(),
        orientation.roll == 0 ==> look_spec(orientation, delta, sensitivity).roll == 0,
{
    lemma_wrap_angle(orientation.yaw - delta.x * sensitivity.x);
}

/// After any number of look steps the pitch is within the limit, provided it
/// started there or the pointer moved at least once.
pub proof fn lemma_pitch_stays_in_limit(
    orientation: Orientation,
    deltas: Seq<PointerDelta>,
    sensitivity: CameraSensitivity,
)
    requires
        orientation.pitch_in_limit() || exists|i: int|
            0 <= i < deltas.len() && !(#[trigger] deltas[i]).is_zero_spec(),
    ensures
        look_all_spec(orientation, deltas, sensitivity).pitch_in_limit(),
    decreases deltas.len(),
{
    if deltas.len() > 0 {
        let before = look_all_spec(orientation, deltas.drop_last(), sensitivity);
        lemma_look_step_wf(before, deltas.last(), sensitivity);
        if deltas.last().is_zero_spec() {
            if !orientation.pitch_in_limit() {
                let i = choose|i: int| 0 <= i < deltas.len() && !(#[trigger] deltas[i]).is_zero_spec();
                assert(deltas.drop_last()[i] == deltas[i]);
            }
            lemma_pitch_stays_in_limit(orientation, deltas.drop_last(), sensitivity);
        }
    }
}

/// After any number of look steps the roll is zero, provided it started at
/// zero or the pointer moved at least once.
pub proof fn lemma_roll_stays_zero(
    orientation: Orientation,
    deltas: Seq<PointerDelta>,
    sensitivity: CameraSensitivity,
)
    requires
        orientation.roll == 0 || exists|i: int|
            0 <= i < deltas.len() && !(#[trigger] deltas[i]).is_zero_spec(),
    ensures
        look_all_spec(orientation, deltas, sensitivity).roll == 0,
    decreases deltas.len(),
{
    if deltas.len() > 0 {
        let before = look_all_spec(orientation, deltas.drop_last(), sensitivity);
        if deltas.last().is_zero_spec() {
            if orientation.roll != 0 {
                let i = choose|i: int| 0 <= i < deltas.len() && !(#[trigger] deltas[i]).is_zero_spec();
                assert(deltas.drop_last()[i] == deltas[i]);
            }
            lemma_roll_stays_zero(orientation, deltas.drop_last(), sensitivity);
        }
    }
}

} // verus!
