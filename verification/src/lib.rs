//! A first-person player controller in fixed-point arithmetic.
//!
//! Every quantity is an integer: angles count micro-radians, positions and
//! velocities count thousandths of a world unit, direction vectors count
//! millionths. The two per-tick steps, [`look::player_view`] and then
//! [`movement::player_movement`], are functions of their arguments alone and
//! are proved against closed-form statements of what they compute.
//!
//! Of the engine the controller knows the keyboard state only, which it
//! reads through [`input`]. Whoever drives it turns the engine's rotation
//! into yaw and pitch for the look step and into a forward and a right
//! vector for the movement step, and writes the results back.

pub mod arith;
pub mod vector;
pub mod input;
pub mod look;
pub mod movement;
pub mod player;
pub mod cursor;
