//! The keyboard, as the engine reports it.
//!
//! The engine keeps the state of every button in a `ButtonInput`: the keys
//! that are down, and those that went down since the last tick. The
//! controller asks it about six keys and nothing else.

use vstd::prelude::*;
use bevy::input::keyboard::KeyCode;
use bevy::input::ButtonInput;
use core::hash::Hash;

verus! {

/// `bevy::input::ButtonInput`: the engine's record of which buttons are down
/// and which went down this tick. Nothing inside it is visible to the
/// proofs; what it holds goes by the names [`held_keys`] and [`fresh_keys`].
#[verifier::external_type_specification]
#[verifier::external_body]
#[verifier::reject_recursive_types(T)]
pub struct ExButtonInput<T: Copy + Eq + Hash + Send + Sync + 'static>(ButtonInput<T>);

/// `bevy::input::keyboard::KeyCode`: the engine's name for a physical key.
/// Carried through only, as the parameter of `ButtonInput`.
#[verifier::external_type_specification]
#[verifier::external_body]
pub struct ExKeyCode(KeyCode);

/// The physical keys that the controller reads.
#[derive(Clone, Copy, Debug, PartialEq, Eq, Structural)]
pub enum Key {
    KeyW,
    KeyA,
    KeyS,
    KeyD,
    Space,
    Escape,
}

/// Those of the controller's keys that are in the input's set of pressed
/// buttons: the keys that are down.
pub uninterp spec fn held_keys(input: ButtonInput<KeyCode>) -> Set<Key>;

/// Those of the controller's keys that are in the input's set of
/// just-pressed buttons: the keys that went down since that set was last
/// cleared.
pub uninterp spec fn fresh_keys(input: ButtonInput<KeyCode>) -> Set<Key>;

/// Calls `ButtonInput::pressed` with the `KeyCode` of the same name as
/// `key`. Taken on trust: the answer is whether that key is in the input's
/// set of pressed buttons, which is all that `pressed` looks at.
#[verifier::external_body]
pub(crate) fn pressed(input: &ButtonInput<KeyCode>, key: Key) -> (out: bool)
    ensures
        out == held_keys(*input).contains(key),
{
    input.pressed(match key {
        Key::KeyW => KeyCode::KeyW,
        Key::KeyA => KeyCode::KeyA,
        Key::KeyS => KeyCode::KeyS,
        Key::KeyD => KeyCode::KeyD,
        Key::Space => KeyCode::Space,
        Key::Escape => KeyCode::Escape,
    })
}

/// Calls `ButtonInput::just_pressed` with the `KeyCode` of the same name as
/// `key`. Taken on trust: the answer is whether that key is in the input's
/// set of just-pressed buttons, which is all that `just_pressed` looks at.
#[verifier::external_body]
pub(crate) fn just_pressed(input: &ButtonInput<KeyCode>, key: Key) -> (out: bool)
    ensures
        out == fresh_keys(*input).contains(key),
{
    input.just_pressed(match key {
        Key::KeyW => KeyCode::KeyW,
        Key::KeyA => KeyCode::KeyA,
        Key::KeyS => KeyCode::KeyS,
        Key::KeyD => KeyCode::KeyD,
        Key::Space => KeyCode::Space,
        Key::Escape => KeyCode::Escape,
    })
}

} // verus!
