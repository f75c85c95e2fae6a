//! The player entity: its marker types and the values it is created with.

use vstd::prelude::*;
use crate::look::{CameraSensitivity, Orientation};
use crate::movement::{LinearVelocity, MovementSpeed};
use crate::vector::Vec3;

verus! {

/// Marks the entity that the controller steers.
#[derive(Clone, Copy, Debug, PartialEq, Eq, Structural)]
pub struct Player;

/// Marks the camera that renders the world, as opposed to the one that
/// renders what the player holds.
#[derive(Clone, Copy, Debug, PartialEq, Eq, Structural)]
pub struct WorldModelCamera;

/// Where an entity is and which way it faces. The position counts
/// thousandths of a world unit.
#[derive(Clone, Copy, Debug, PartialEq, Eq, Structural)]
pub struct Transform {
    pub position: Vec3,
    pub rotation: Orientation,
}

/// Everything a player is created with.
#[derive(Clone, Copy, Debug, PartialEq, Eq, Structural)]
pub struct PlayerBundle {
    pub player: Player,
    pub camera_sensitivity: CameraSensitivity,
    pub movement_speed: MovementSpeed,
    pub transform: Transform,
    pub linear_velocity: LinearVelocity,
}

impl Transform {
    /// A transform at the given position, facing forward and level.
    pub fn from_xyz(x: i32, y: i32, z: i32) -> (out: Transform)
        ensures
            out.position == (Vec3 { x, y, z }),
            out.rotation == (Orientation { yaw: 0, pitch: 0, roll: 0 }),
            out.rotation.wf(),
    {
        Transform { position: Vec3 { x, y, z }, rotation: Orientation::identity() }
    }
}

impl PlayerBundle {
    /// The bundle's orientation is one that the look step keeps well-formed.
    pub open spec fn wf(self) -> bool {
        self.transform.rotation.wf()
    }
}

impl Default for PlayerBundle {
    /// A player at rest one unit above the origin, facing forward and level,
    /// with the default sensitivity and a speed of five units per second.
    fn default() -> (out: PlayerBundle)
        ensures
            out.wf(),
            out.camera_sensitivity == (CameraSensitivity { x: 3_000, y: 2_000 }),
            out.movement_speed == MovementSpeed(5_000),
            out.transform.position == (Vec3 { x: 0, y: 1_000, z: 0 }),
            out.transform.rotation == (Orientation { yaw: 0, pitch: 0, roll: 0 }),
            out.linear_velocity == LinearVelocity(Vec3::zero_spec()),
    {
        PlayerBundle {
            player: Player,
            camera_sensitivity: CameraSensitivity::default(),
            movement_speed: MovementSpeed(5_000),
            transform: Transform::from_xyz(0, 1_000, 0),
            linear_velocity: LinearVelocity(Vec3::zero()),
        }
    }
}

} // verus!
