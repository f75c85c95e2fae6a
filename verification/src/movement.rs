//! The movement step: held keys and the player's facing become a horizontal
//! velocity, or the player coasts to a stop.
//!
//! Speeds and velocities count thousandths of a world unit per second.

use vstd::prelude::*;
use vstd::arithmetic::power::{lemma_pow_positive, pow};
use bevy::input::keyboard::KeyCode;
use bevy::input::ButtonInput;
use crate::arith::{lerp, lerp_spec, trunc_div};
use crate::input::{fresh_keys, held_keys, just_pressed, pressed, Key};
use crate::vector::{
    abs, lemma_length_squared, lemma_normalize_or_zero, lemma_normalized_component_alone,
    lemma_normalized_length, Vec3, UNIT,
};

verus! {

/// The vertical velocity that a jump sets: 3.3 units per second.
pub const JUMP_IMPULSE: i32 = 3_300;

/// The share of its horizontal velocity that a coasting player sheds each
/// tick, in thousandths.
pub const DAMPING_PERMILLE: u16 = 200;

/// How fast the player moves, in thousandths of a unit per second.
#[derive(Clone, Copy, Debug, PartialEq, Eq, Structural)]
pub struct MovementSpeed(pub i32);

/// The player's velocity, in thousandths of a unit per second.
#[derive(Clone, Copy, Debug, PartialEq, Eq, Structural)]
pub struct LinearVelocity(pub Vec3);

/// The movement input of one tick. The four direction keys are levels: set
/// while the key is held. `jump` is an edge: set only on the tick on which
/// the jump key went down.
#[derive(Clone, Copy, Debug, PartialEq, Eq, Structural)]
pub struct MovementKeys {
    pub forward: bool,
    pub back: bool,
    pub left: bool,
    pub right: bool,
    pub jump: bool,
}

impl MovementKeys {
    /// The movement input that a keyboard state stands for: W, S, A and D
    /// held are forward, back, left and right; Space gone down is a jump.
    pub open spec fn from_keys_spec(held: Set<Key>, fresh: Set<Key>) -> MovementKeys {
        MovementKeys {
            forward: held.contains(Key::KeyW),
            back: held.contains(Key::KeyS),
            left: held.contains(Key::KeyA),
            right: held.contains(Key::KeyD),
            jump: fresh.contains(Key::Space),
        }
    }

    /// Reads this tick's movement input off the keyboard.
    pub fn read(input: &ButtonInput<KeyCode>) -> (out: MovementKeys)
        ensures
            out == MovementKeys::from_keys_spec(held_keys(*input), fresh_keys(*input)),
    {
        MovementKeys {
            forward: pressed(input, Key::KeyW),
            back: pressed(input, Key::KeyS),
            left: pressed(input, Key::KeyA),
            right: pressed(input, Key::KeyD),
            jump: just_pressed(input, Key::Space),
        }
    }
}

/// The net input along one axis: +1 or -1 when one of its two keys is held
/// alone, 0 when neither or both are.
pub open spec fn axis(positive: bool, negative: bool) -> int {
    (if positive { 1int } else { 0int }) - (if negative { 1int } else { 0int })
}

/// The direction the keys ask for: the horizontal unit vectors of `forward`
/// and `right`, each weighted by the net input along it. Not normalized.
pub open spec fn wish_direction_spec(keys: MovementKeys, forward: Vec3, right: Vec3) -> Vec3 {
    let f = forward.horizontal_spec().normalize_or_zero_spec();
    let r = right.horizontal_spec().normalize_or_zero_spec();
    let along = axis(keys.forward, keys.back);
    let across = axis(keys.right, keys.left);
    Vec3 {
        x: (along * f.x + across * r.x) as i32,
        y: 0,
        z: (along * f.z + across * r.z) as i32,
    }
}

/// One component of the velocity of a player moving at `speed` along a unit
/// direction whose matching component is `component`.
pub open spec fn drive_spec(component: int, speed: int) -> int {
    trunc_div(component * speed, UNIT as int)
}

/// One horizontal velocity component after a tick of coasting.
pub open spec fn damp_spec(v: int) -> int {
    lerp_spec(v, 0, DAMPING_PERMILLE as int)
}

/// The velocity after one movement step.
///
/// The vertical component is the jump impulse on a jump edge and is otherwise
/// left alone. The horizontal components are those of the normalized wish
/// direction scaled by `speed`, or, when the keys ask for no direction, the
/// old ones damped.
pub open spec fn movement_spec(
    keys: MovementKeys,
    forward: Vec3,
    right: Vec3,
    speed: MovementSpeed,
    velocity: LinearVelocity,
) -> LinearVelocity {
    let wish = wish_direction_spec(keys, forward, right);
    let y = if keys.jump { JUMP_IMPULSE } else { velocity.0.y };
    if wish == Vec3::zero_spec() {
        LinearVelocity(
            Vec3 { x: damp_spec(velocity.0.x as int) as i32, y, z: damp_spec(velocity.0.z as int) as i32 },
        )
    } else {
        let unit = wish.normalize_or_zero_spec();
        LinearVelocity(
            Vec3 {
                x: drive_spec(unit.x as int, speed.0 as int) as i32,
                y,
                z: drive_spec(unit.z as int, speed.0 as int) as i32,
            },
        )
    }
}

/// Weighting a component by the net input along an axis keeps it, negates it
/// or drops it.
pub proof fn lemma_axis_weight(positive: bool, negative: bool, component: int)
    ensures
        positive && !negative ==> axis(positive, negative) * component == component,
        negative && !positive ==> axis(positive, negative) * component == -component,
        positive == negative ==> axis(positive, negative) * component == 0,
{
    let a = axis(positive, negative);
    assert(a == 1 ==> a * component == component) by (nonlinear_arith);
    assert(a == -1 ==> a * component == -component) by (nonlinear_arith);
    assert(a == 0 ==> a * component == 0) by (nonlinear_arith);
}

/// The wish direction has no vertical part, and each horizontal component is
/// at most two units long.
pub proof fn lemma_wish_direction_bounds(keys: MovementKeys, forward: Vec3, right: Vec3)
    ensures
        wish_direction_spec(keys, forward, right).y == 0,
        -2 * UNIT <= wish_direction_spec(keys, forward, right).x <= 2 * UNIT,
        -2 * UNIT <= wish_direction_spec(keys, forward, right).z <= 2 * UNIT,
        wish_direction_spec(keys, forward, right).x == axis(keys.forward, keys.back)
            * forward.horizontal_spec().normalize_or_zero_spec().x + axis(keys.right, keys.left)
            * right.horizontal_spec().normalize_or_zero_spec().x,
        wish_direction_spec(keys, forward, right).z == axis(keys.forward, keys.back)
            * forward.horizontal_spec().normalize_or_zero_spec().z + axis(keys.right, keys.left)
            * right.horizontal_spec().normalize_or_zero_spec().z,
{
    let f = forward.horizontal_spec().normalize_or_zero_spec();
    let r = right.horizontal_spec().normalize_or_zero_spec();
    lemma_normalize_or_zero(forward.horizontal_spec());
    lemma_normalize_or_zero(right.horizontal_spec());
    lemma_axis_weight(keys.forward, keys.back, f.x as int);
    lemma_axis_weight(keys.forward, keys.back, f.z as int);
    lemma_axis_weight(keys.right, keys.left, r.x as int);
    lemma_axis_weight(keys.right, keys.left, r.z as int);
}

/// A driven velocity component is no larger than the speed.
pub proof fn lemma_drive_bounds(component: int, speed: int)
    requires
        -UNIT <= component <= UNIT,
    ensures
        speed >= 0 ==> -speed <= drive_spec(component, speed) <= speed,
        speed <= 0 ==> speed <= drive_spec(component, speed) <= -speed,
        component == 0 ==> drive_spec(component, speed) == 0,
        component == UNIT ==> drive_spec(component, speed) == speed,
        component == -UNIT ==> drive_spec(component, speed) == -speed,
{
    let p = component * speed;
    let s = if speed >= 0 { speed } else { -speed };
    assert(-(s * 1_000_000) <= p <= s * 1_000_000) by (nonlinear_arith)
        requires
            p == component * speed,
            -1_000_000 <= component <= 1_000_000,
            s == speed || s == -speed,
            s >= 0,
    ;
    assert(component == 0 ==> p == 0) by (nonlinear_arith)
        requires
            p == component * speed,
    ;
    assert(component == 1_000_000 ==> p == speed * 1_000_000) by (nonlinear_arith)
        requires
            p == component * speed,
    ;
    assert(component == -1_000_000 ==> p == -speed * 1_000_000) by (nonlinear_arith)
        requires
            p == component * speed,
    ;
}

/// The direction that the held keys ask for, before it is normalized: zero
/// when they ask for none.
pub fn wish_direction(keys: &MovementKeys, forward: Vec3, right: Vec3) -> (out: Vec3)
    ensures
        out == wish_direction_spec(*keys, forward, right),
{
    let horizontal_forward = forward.horizontal().normalize_or_zero();
    let horizontal_right = right.horizontal().normalize_or_zero();
    proof {
        lemma_axis_weight(keys.forward, keys.back, horizontal_forward.x as int);
        lemma_axis_weight(keys.forward, keys.back, horizontal_forward.z as int);
        lemma_axis_weight(keys.right, keys.left, horizontal_right.x as int);
        lemma_axis_weight(keys.right, keys.left, horizontal_right.z as int);
    }
    let mut x: i32 = 0;
    let mut z: i32 = 0;
    if keys.forward {
        x = x + horizontal_forward.x;
        z = z + horizontal_forward.z;
    }
    if keys.back {
        x = x - horizontal_forward.x;
        z = z - horizontal_forward.z;
    }
    if keys.left {
        x = x - horizontal_right.x;
        z = z - horizontal_right.z;
    }
    if keys.right {
        x = x + horizontal_right.x;
        z = z + horizontal_right.z;
    }
    Vec3 { x, y: 0, z }
}

/// One velocity component for moving at `speed` along a unit direction.
fn drive(component: i32, speed: i32) -> (out: i32)
    requires
        -UNIT <= component <= UNIT,
        speed > i32::MIN,
    ensures
        out == drive_spec(component as int, speed as int),
{
    proof {
        lemma_drive_bounds(component as int, speed as int);
    }
    assert(-0x8000_0000 * 1_000_000 <= component * speed <= 0x8000_0000 * 1_000_000)
        by (nonlinear_arith)
        requires
            -1_000_000 <= component <= 1_000_000,
            -0x8000_0000 <= speed <= 0x8000_0000,
    ;
    ((component as i64 * speed as i64) / (UNIT as i64)) as i32
}

/// Runs the movement step on `velocity`, with the keys as the keyboard has
/// them: [`movement_step`] on what [`MovementKeys::read`] reads.
pub fn player_movement(
    input: &ButtonInput<KeyCode>,
    forward: Vec3,
    right: Vec3,
    speed: &MovementSpeed,
    velocity: &mut LinearVelocity,
)
    requires
        speed.0 > i32::MIN,
    ensures
        *final(velocity) == movement_spec(
            MovementKeys::from_keys_spec(held_keys(*input), fresh_keys(*input)),
            forward,
            right,
            *speed,
            *old(velocity),
        ),
        fresh_keys(*input).contains(Key::Space) ==> final(velocity).0.y == JUMP_IMPULSE,
        !fresh_keys(*input).contains(Key::Space) ==> final(velocity).0.y == old(velocity).0.y,
{
    let keys = MovementKeys::read(input);
    movement_step(&keys, forward, right, speed, velocity);
}

/// Runs the movement step on `velocity`.
///
/// `forward` and `right` are the basis vectors of the player's orientation,
/// of any length; only their horizontal parts count, and one without a
/// horizontal part adds no direction. Keys held against each other cancel.
/// The vertical velocity is written on a jump edge only.
///
/// The one speed not taken is `i32::MIN`, whose negation has no `i32`.
pub fn movement_step(
    keys: &MovementKeys,
    forward: Vec3,
    right: Vec3,
    speed: &MovementSpeed,
    velocity: &mut LinearVelocity,
)
    requires
        speed.0 > i32::MIN,
    ensures
        *final(velocity) == movement_spec(*keys, forward, right, *speed, *old(velocity)),
        keys.jump ==> final(velocity).0.y == JUMP_IMPULSE,
        !keys.jump ==> final(velocity).0.y == old(velocity).0.y,
{
    let direction = wish_direction(keys, forward, right);
    if keys.jump {
        velocity.0.y = JUMP_IMPULSE;
    }
    if !direction.is_zero() {
        let unit = direction.normalize_or_zero();
        velocity.0.x = drive(unit.x, speed.0);
        velocity.0.z = drive(unit.z, speed.0);
    } else {
        velocity.0.x = lerp(velocity.0.x, 0, DAMPING_PERMILLE);
        velocity.0.z = lerp(velocity.0.z, 0, DAMPING_PERMILLE);
    }
}

/// One horizontal velocity component after `ticks` ticks of coasting.
pub open spec fn coast_spec(v: int, ticks: nat) -> int
    decreases ticks,
{
    if ticks == 0 {
        v
    } else {
        damp_spec(coast_spec(v, (ticks - 1) as nat))
    }
}

/// Opposed keys cancel: with forward and back both held, the wish direction
/// is what it would be with both released. If left and right cancel as well,
/// or there is no horizontal right, the direction is zero and the step damps
/// the horizontal velocity instead of driving it.
pub proof fn lemma_opposed_keys_cancel(
    keys: MovementKeys,
    forward: Vec3,
    right: Vec3,
    speed: MovementSpeed,
    velocity: LinearVelocity,
)
    requires
        keys.forward,
        keys.back,
    ensures
        wish_direction_spec(keys, forward, right) == wish_direction_spec(
            MovementKeys { forward: false, back: false, ..keys },
            forward,
            right,
        ),
        keys.left == keys.right || right.horizontal_spec() == Vec3::zero_spec() ==> {
            &&& wish_direction_spec(keys, forward, right) == Vec3::zero_spec()
            &&& movement_spec(keys, forward, right, speed, velocity).0.x == damp_spec(
                velocity.0.x as int,
            )
            &&& movement_spec(keys, forward, right, speed, velocity).0.z == damp_spec(
                velocity.0.z as int,
            )
        },
{
    let f = forward.horizontal_spec().normalize_or_zero_spec();
    let r = right.horizontal_spec().normalize_or_zero_spec();
    lemma_normalize_or_zero(right.horizontal_spec());
    lemma_axis_weight(true, true, f.x as int);
    lemma_axis_weight(true, true, f.z as int);
    lemma_axis_weight(false, false, f.x as int);
    lemma_axis_weight(false, false, f.z as int);
    lemma_axis_weight(keys.right, keys.left, r.x as int);
    lemma_axis_weight(keys.right, keys.left, r.z as int);
    lemma_damp_step(velocity.0.x as int);
    lemma_damp_step(velocity.0.z as int);
}

/// A facing with no horizontal part adds nothing to the wish direction: the
/// forward and back keys then ask for no direction at all, and with left and
/// right cancelling too the step damps the horizontal velocity.
pub proof fn lemma_vertical_facing_adds_nothing(
    keys: MovementKeys,
    forward: Vec3,
    right: Vec3,
    speed: MovementSpeed,
    velocity: LinearVelocity,
)
    requires
        forward.x == 0,
        forward.z == 0,
    ensures
        wish_direction_spec(keys, forward, right) == wish_direction_spec(
            MovementKeys { forward: false, back: false, ..keys },
            forward,
            right,
        ),
        keys.left == keys.right ==> {
            &&& wish_direction_spec(keys, forward, right) == Vec3::zero_spec()
            &&& movement_spec(keys, forward, right, speed, velocity).0.x == damp_spec(
                velocity.0.x as int,
            )
            &&& movement_spec(keys, forward, right, speed, velocity).0.z == damp_spec(
                velocity.0.z as int,
            )
        },
{
    let f = forward.horizontal_spec().normalize_or_zero_spec();
    let r = right.horizontal_spec().normalize_or_zero_spec();
    lemma_normalize_or_zero(forward.horizontal_spec());
    lemma_axis_weight(keys.forward, keys.back, 0);
    lemma_axis_weight(false, false, 0);
    lemma_axis_weight(keys.right, keys.left, r.x as int);
    lemma_axis_weight(keys.right, keys.left, r.z as int);
    lemma_damp_step(velocity.0.x as int);
    lemma_damp_step(velocity.0.z as int);
}

/// With no direction key held the step damps both horizontal components,
/// whatever the facing and the speed.
pub proof fn lemma_released_keys_damp(
    keys: MovementKeys,
    forward: Vec3,
    right: Vec3,
    speed: MovementSpeed,
    velocity: LinearVelocity,
)
    requires
        !keys.forward,
        !keys.back,
        !keys.left,
        !keys.right,
    ensures
        movement_spec(keys, forward, right, speed, velocity).0.x == damp_spec(velocity.0.x as int),
        movement_spec(keys, forward, right, speed, velocity).0.z == damp_spec(velocity.0.z as int),
{
    let f = forward.horizontal_spec().normalize_or_zero_spec();
    let r = right.horizontal_spec().normalize_or_zero_spec();
    lemma_axis_weight(false, false, f.x as int);
    lemma_axis_weight(false, false, f.z as int);
    lemma_axis_weight(false, false, r.x as int);
    lemma_axis_weight(false, false, r.z as int);
    lemma_damp_step(velocity.0.x as int);
    lemma_damp_step(velocity.0.z as int);
}

/// A driven velocity component is the unit component times the speed, in
/// millionths, rounded toward zero.
pub proof fn lemma_drive_rounding(component: int, speed: int)
    ensures
        abs(drive_spec(component, speed)) * UNIT <= abs(component) * abs(speed) < (abs(
            drive_spec(component, speed),
        ) + 1) * UNIT,
{
    let p = component * speed;
    let a = abs(component) * abs(speed);
    assert(a == abs(p)) by (nonlinear_arith)
        requires
            p == component * speed,
            a == abs(component) * abs(speed),
    ;
    assert(abs(drive_spec(component, speed)) == a / 1_000_000);
}

/// Whenever the keys ask for a direction the player moves at `speed`, to
/// within rounding: never faster by more than a millionth part and, for
/// speeds up to a thousand units per second, within three thousandths of a
/// unit per second of it.
pub proof fn lemma_drive_speed(
    keys: MovementKeys,
    forward: Vec3,
    right: Vec3,
    speed: MovementSpeed,
    velocity: LinearVelocity,
)
    requires
        wish_direction_spec(keys, forward, right) != Vec3::zero_spec(),
        speed.0 > i32::MIN,
    ensures
        ({
            let after = movement_spec(keys, forward, right, speed, velocity).0;
            let s = speed.0 as int;
            &&& UNIT * (after.x * after.x + after.z * after.z) <= (UNIT + 2) * (s * s)
            &&& abs(s) <= UNIT ==> after.x * after.x + after.z * after.z <= s * s + 2 * abs(s)
            &&& abs(s) <= UNIT ==> (abs(after.x as int) + 2) * (abs(after.x as int) + 2) + (abs(
                after.z as int,
            ) + 2) * (abs(after.z as int) + 2) >= s * s
        }),
{
    let wish = wish_direction_spec(keys, forward, right);
    let unit = wish.normalize_or_zero_spec();
    let after = movement_spec(keys, forward, right, speed, velocity).0;
    lemma_wish_direction_bounds(keys, forward, right);
    lemma_normalize_or_zero(wish);
    lemma_normalized_length(wish);
    lemma_length_squared(unit);
    assert(unit.y == 0);
    let s = abs(speed.0 as int);
    let a = abs(unit.x as int);
    let c = abs(unit.z as int);
    lemma_drive_bounds(unit.x as int, speed.0 as int);
    lemma_drive_bounds(unit.z as int, speed.0 as int);
    lemma_drive_rounding(unit.x as int, speed.0 as int);
    lemma_drive_rounding(unit.z as int, speed.0 as int);
    let p = abs(after.x as int);
    let r = abs(after.z as int);
    assert(p == abs(drive_spec(unit.x as int, speed.0 as int)));
    assert(r == abs(drive_spec(unit.z as int, speed.0 as int)));
    let u = UNIT as int;
    assert(after.x * after.x == p * p && after.z * after.z == r * r) by (nonlinear_arith)
        requires
            p == abs(after.x as int),
            r == abs(after.z as int),
    ;
    assert(unit.x * unit.x == a * a && unit.z * unit.z == c * c) by (nonlinear_arith)
        requires
            a == abs(unit.x as int),
            c == abs(unit.z as int),
    ;
    assert(speed.0 * speed.0 == s * s) by (nonlinear_arith)
        requires
            s == abs(speed.0 as int),
    ;
    // Never faster: (p^2 + r^2) u^2 <= (a^2 + c^2) s^2 <= (u^2 + 2u) s^2.
    assert((p * u) * (p * u) <= (a * s) * (a * s)) by (nonlinear_arith)
        requires
            0 <= p * u <= a * s,
    ;
    assert((r * u) * (r * u) <= (c * s) * (c * s)) by (nonlinear_arith)
        requires
            0 <= r * u <= c * s,
    ;
    assert((p * u) * (p * u) == (p * p) * (u * u)) by (nonlinear_arith);
    assert((r * u) * (r * u) == (r * r) * (u * u)) by (nonlinear_arith);
    assert((a * s) * (a * s) == (a * a) * (s * s)) by (nonlinear_arith);
    assert((c * s) * (c * s) == (c * c) * (s * s)) by (nonlinear_arith);
    assert((p * p + r * r) * (u * u) == (p * p) * (u * u) + (r * r) * (u * u))
        by (nonlinear_arith);
    assert((a * a + c * c) * (s * s) == (a * a) * (s * s) + (c * c) * (s * s))
        by (nonlinear_arith);
    assert((p * p + r * r) * (u * u) <= (a * a + c * c) * (s * s));
    assert((a * a + c * c) * (s * s) <= (u * u + 2 * u) * (s * s)) by (nonlinear_arith)
        requires
            a * a + c * c <= u * u + 2 * u,
    ;
    assert(u * (p * p + r * r) <= (u + 2) * (s * s)) by (nonlinear_arith)
        requires
            (p * p + r * r) * (u * u) <= (u * u + 2 * u) * (s * s),
            u > 0,
    ;
    if s <= u {
        assert(p * p + r * r <= s * s + 2 * s) by (nonlinear_arith)
            requires
                u * (p * p + r * r) <= (u + 2) * (s * s),
                0 <= s <= u,
                u > 0,
        ;
        // Never much slower: stepping out reaches the speed.
        let big_a = u * (p + 2);
        let big_c = u * (r + 2);
        assert(big_a >= (a + 1) * s && big_c >= (c + 1) * s) by (nonlinear_arith)
            requires
                a * s < (p + 1) * u,
                c * s < (r + 1) * u,
                0 <= s <= u,
                big_a == u * (p + 2),
                big_c == u * (r + 2),
        ;
        assert(big_a * big_a >= ((a + 1) * (a + 1)) * (s * s)) by (nonlinear_arith)
            requires
                big_a >= (a + 1) * s,
                a >= 0,
                s >= 0,
        ;
        assert(big_c * big_c >= ((c + 1) * (c + 1)) * (s * s)) by (nonlinear_arith)
            requires
                big_c >= (c + 1) * s,
                c >= 0,
                s >= 0,
        ;
        let t = (a + 1) * (a + 1) + (c + 1) * (c + 1);
        assert((abs(unit.y as int) + 1) * (abs(unit.y as int) + 1) == 1) by (nonlinear_arith)
            requires
                unit.y == 0,
        ;
        assert(u * u == UNIT * UNIT);
        assert(t >= u * u);
        assert(big_a * big_a + big_c * big_c >= (u * u) * (s * s)) by (nonlinear_arith)
            requires
                big_a * big_a >= ((a + 1) * (a + 1)) * (s * s),
                big_c * big_c >= ((c + 1) * (c + 1)) * (s * s),
                t == (a + 1) * (a + 1) + (c + 1) * (c + 1),
                t >= u * u,
        ;
        assert((p + 2) * (p + 2) + (r + 2) * (r + 2) >= s * s) by (nonlinear_arith)
            requires
                big_a * big_a + big_c * big_c >= (u * u) * (s * s),
                big_a == u * (p + 2),
                big_c == u * (r + 2),
                u > 0,
        ;
    }
}

/// Facing along the Z axis, with forward or back held alone and left and
/// right cancelling, the player moves at exactly `speed` along that axis:
/// with the facing when forward is held, against it when back is.
pub proof fn lemma_drive_along_axis(
    keys: MovementKeys,
    forward: Vec3,
    right: Vec3,
    speed: MovementSpeed,
    velocity: LinearVelocity,
)
    requires
        forward.x == 0,
        forward.z != 0,
        keys.forward != keys.back,
        keys.left == keys.right,
        speed.0 > i32::MIN,
    ensures
        movement_spec(keys, forward, right, speed, velocity).0.x == 0,
        (forward.z < 0) == keys.forward ==> movement_spec(keys, forward, right, speed, velocity).0.z
            == -speed.0,
        (forward.z > 0) == keys.forward ==> movement_spec(keys, forward, right, speed, velocity).0.z
            == speed.0,
{
    let fh = forward.horizontal_spec();
    let f = fh.normalize_or_zero_spec();
    let r = right.horizontal_spec().normalize_or_zero_spec();
    let z = forward.z as int;
    lemma_length_squared(fh);
    assert(fh.length_squared_spec() == z * z) by (nonlinear_arith)
        requires
            fh.x == 0,
            fh.y == 0,
            fh.z == z,
            fh.length_squared_spec() == fh.x * fh.x + fh.y * fh.y + fh.z * fh.z,
    ;
    assert(z * z > 0) by (nonlinear_arith)
        requires
            z != 0,
    ;
    lemma_normalized_component_alone(z);
    assert(f.x == 0 && f.y == 0);
    assert(f.z == UNIT || f.z == -UNIT);
    lemma_axis_weight(keys.forward, keys.back, f.x as int);
    lemma_axis_weight(keys.forward, keys.back, f.z as int);
    lemma_axis_weight(keys.right, keys.left, r.x as int);
    lemma_axis_weight(keys.right, keys.left, r.z as int);
    let wish = wish_direction_spec(keys, forward, right);
    assert(wish.x == 0 && wish.y == 0);
    assert(wish.z == UNIT || wish.z == -UNIT);
    let w = wish.z as int;
    lemma_length_squared(wish);
    assert(wish.length_squared_spec() == w * w) by (nonlinear_arith)
        requires
            wish.x == 0,
            wish.y == 0,
            wish.z == w,
            wish.length_squared_spec() == wish.x * wish.x + wish.y * wish.y + wish.z * wish.z,
    ;
    assert(w * w > 0) by (nonlinear_arith)
        requires
            w != 0,
    ;
    lemma_normalized_component_alone(w);
    let unit = wish.normalize_or_zero_spec();
    assert(unit == wish);
    lemma_drive_bounds(unit.x as int, speed.0 as int);
    lemma_drive_bounds(unit.z as int, speed.0 as int);
}

/// The velocity after `ticks` ticks of coasting: each horizontal component
/// damped `ticks` times, the vertical one as it was.
pub open spec fn coast_velocity_spec(velocity: LinearVelocity, ticks: nat) -> LinearVelocity {
    LinearVelocity(
        Vec3 {
            x: coast_spec(velocity.0.x as int, ticks) as i32,
            y: velocity.0.y,
            z: coast_spec(velocity.0.z as int, ticks) as i32,
        },
    )
}

/// A movement step with no key held and no jump takes a coasting player one
/// tick further, whatever the facing and the speed.
pub proof fn lemma_coasting_tick(
    keys: MovementKeys,
    forward: Vec3,
    right: Vec3,
    speed: MovementSpeed,
    velocity: LinearVelocity,
    ticks: nat,
)
    requires
        !keys.forward,
        !keys.back,
        !keys.left,
        !keys.right,
        !keys.jump,
    ensures
        coast_velocity_spec(velocity, 0) == velocity,
        movement_spec(keys, forward, right, speed, coast_velocity_spec(velocity, ticks))
            == coast_velocity_spec(velocity, ticks + 1),
{
    lemma_coast_decays_geometrically(velocity.0.x as int, ticks);
    lemma_coast_decays_geometrically(velocity.0.z as int, ticks);
    lemma_released_keys_damp(keys, forward, right, speed, coast_velocity_spec(velocity, ticks));
}

/// One tick of coasting keeps four fifths of a velocity component, rounded
/// toward zero.
pub proof fn lemma_damp_step(v: int)
    ensures
        damp_spec(v) == trunc_div(4 * v, 5),
        v >= 0 ==> 0 <= damp_spec(v) <= v,
        v <= 0 ==> v <= damp_spec(v) <= 0,
        v != 0 ==> damp_spec(v) != v,
{
}

/// Coasting decays geometrically: after `ticks` ticks a component is
/// `(4/5)^ticks` of what it was, short of it by less than four thousandths
/// because each tick rounds toward zero.
pub proof fn lemma_coast_decays_geometrically(v: int, ticks: nat)
    ensures
        v >= 0 ==> 0 <= coast_spec(v, ticks) <= v,
        v <= 0 ==> v <= coast_spec(v, ticks) <= 0,
        v >= 0 ==> pow(4, ticks) * v - 4 * (pow(5, ticks) - pow(4, ticks)) <= pow(5, ticks)
            * coast_spec(v, ticks) <= pow(4, ticks) * v,
        v <= 0 ==> pow(4, ticks) * v <= pow(5, ticks) * coast_spec(v, ticks) <= pow(4, ticks) * v
            + 4 * (pow(5, ticks) - pow(4, ticks)),
    decreases ticks,
{
    reveal(pow);
    if ticks == 0 {
        assert(pow(4, 0) == 1 && pow(5, 0) == 1);
        assert(pow(4, 0) * v == v && pow(5, 0) * v == v) by (nonlinear_arith)
            requires
                pow(4, 0) == 1 && pow(5, 0) == 1,
        ;
    } else {
        let prev = (ticks - 1) as nat;
        lemma_coast_decays_geometrically(v, prev);
        let c = coast_spec(v, prev);
        let d = coast_spec(v, ticks);
        lemma_damp_step(c);
        let a = pow(4, prev);
        let b = pow(5, prev);
        lemma_pow_positive(4, prev);
        lemma_pow_positive(5, prev);
        assert(pow(4, ticks) == 4 * a);
        assert(pow(5, ticks) == 5 * b);
        if v >= 0 {
            assert((4 * a) * v - 4 * (5 * b - 4 * a) <= (5 * b) * d <= (4 * a) * v)
                by (nonlinear_arith)
                requires
                    b > 0,
                    4 * c - 4 <= 5 * d <= 4 * c,
                    a * v - 4 * (b - a) <= b * c <= a * v,
            ;
        }
        if v <= 0 {
            assert((4 * a) * v <= (5 * b) * d <= (4 * a) * v + 4 * (5 * b - 4 * a))
                by (nonlinear_arith)
                requires
                    b > 0,
                    4 * c <= 5 * d <= 4 * c + 4,
                    a * v <= b * c <= a * v + 4 * (b - a),
            ;
        }
    }
}

/// Where no rounding occurs the decay is exact: a component that is a
/// multiple of `5^ticks` is, `ticks` ticks later, that multiple of `4^ticks`.
pub proof fn lemma_coast_exact(m: int, ticks: nat)
    ensures
        coast_spec(pow(5, ticks) * m, ticks) == pow(4, ticks) * m,
    decreases ticks,
{
    reveal(pow);
    if ticks == 0 {
        assert(pow(5, 0) * m == m && pow(4, 0) * m == m) by (nonlinear_arith)
            requires
                pow(4, 0) == 1 && pow(5, 0) == 1,
        ;
    } else {
        let prev = (ticks - 1) as nat;
        // Coasting `prev` ticks from 5^prev * (5m) leaves 4^prev * (5m) ...
        lemma_coast_exact(5 * m, prev);
        let a = pow(4, prev);
        let b = pow(5, prev);
        assert(pow(5, ticks) * m == b * (5 * m)) by (nonlinear_arith)
            requires
                pow(5, ticks) == 5 * b,
        ;
        let c = a * (5 * m);
        assert(coast_spec(pow(5, ticks) * m, prev) == c);
        // ... and one more tick takes a fifth off.
        lemma_damp_step(c);
        assert(4 * c == 5 * (pow(4, ticks) * m)) by (nonlinear_arith)
            requires
                c == a * (5 * m),
                pow(4, ticks) == 4 * a,
        ;
    }
}

} // verus!
