//! The pointer's capture state and the key that toggles it.

use vstd::prelude::*;
use bevy::input::keyboard::KeyCode;
use bevy::input::ButtonInput;
use crate::input::{fresh_keys, just_pressed, Key};

verus! {

/// How the window holds the pointer.
#[derive(Clone, Copy, Debug, PartialEq, Eq, Structural)]
pub enum CursorGrabMode {
    /// The pointer moves freely in and out of the window.
    Free,
    /// The pointer is kept inside the window.
    Confined,
    /// The pointer is fixed in place and reports motion only.
    Locked,
}

/// Whether the pointer is drawn and how it is held.
#[derive(Clone, Copy, Debug, PartialEq, Eq, Structural)]
pub struct CursorOptions {
    pub visible: bool,
    pub grab_mode: CursorGrabMode,
}

impl CursorOptions {
    /// The state after a toggle: visibility flips; a free pointer becomes
    /// locked, a held one becomes free.
    pub open spec fn toggled_spec(self) -> CursorOptions {
        CursorOptions {
            visible: !self.visible,
            grab_mode: match self.grab_mode {
                CursorGrabMode::Free => CursorGrabMode::Locked,
                CursorGrabMode::Locked | CursorGrabMode::Confined => CursorGrabMode::Free,
            },
        }
    }

    /// The state a first-person view starts in: pointer hidden and locked.
    pub fn captured() -> (out: CursorOptions)
        ensures
            out == (CursorOptions { visible: false, grab_mode: CursorGrabMode::Locked }),
    {
        CursorOptions { visible: false, grab_mode: CursorGrabMode::Locked }
    }
}

impl CursorOptions {
    /// Toggles the pointer's capture.
    pub fn toggle(&mut self)
        ensures
            *final(self) == old(self).toggled_spec(),
    {
        self.visible = !self.visible;
        self.grab_mode = match self.grab_mode {
            CursorGrabMode::Free => CursorGrabMode::Locked,
            CursorGrabMode::Locked | CursorGrabMode::Confined => CursorGrabMode::Free,
        };
    }
}

/// Toggles the pointer's capture on the tick on which the escape key went
/// down, and leaves it alone on every other tick.
pub fn toggle_cursor(input: &ButtonInput<KeyCode>, cursor: &mut CursorOptions)
    ensures
        fresh_keys(*input).contains(Key::Escape) ==> *final(cursor) == old(cursor).toggled_spec(),
        !fresh_keys(*input).contains(Key::Escape) ==> *final(cursor) == *old(cursor),
{
    if just_pressed(input, Key::Escape) {
        cursor.toggle();
    }
}

/// Two toggles bring a free or a locked pointer back to where it was.
pub proof fn lemma_toggle_twice(cursor: CursorOptions)
    requires
        cursor.grab_mode != CursorGrabMode::Confined,
    ensures
        cursor.toggled_spec().toggled_spec() == cursor,
{
}

} // verus!
