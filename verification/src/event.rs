//! What a player may ask of the game, and why the game may refuse.

use vstd::prelude::*;
use crate::constants::MISSILE_MAX_VELOCITY_BITS;
use crate::scalar::{lemma_values_of_one_and_ten, Scalar, Vector3};

verus! {

/// Why a player's input was refused.
#[derive(Clone, Copy, Debug, PartialEq, Eq, Structural)]
pub enum InputEventError {
    /// The player whose turn it is has no ship.
    NoShipToFireMissile,
    /// The launch angle is infinite or not a number.
    InvalidMissileAngle,
    /// The launch speed is below zero, above the highest speed allowed, or
    /// not a number.
    InvalidMissileSpeed,
    /// Nobody is aiming: the game is not being played, or a missile is
    /// already in flight.
    CannotFireNow,
}

impl InputEventError {
    /// The error in words.
    pub fn message(&self) -> (message: &'static str)
        ensures
            message@ == match *self {
                InputEventError::NoShipToFireMissile =>
                    "Invalid game input event: No ship that can fire a missile"@,
                InputEventError::InvalidMissileAngle =>
                    "Invalid game input event: Invalid angle for missile"@,
                InputEventError::InvalidMissileSpeed =>
                    "Invalid game input event: Invalid speed for missile"@,
                InputEventError::CannotFireNow =>
                    "Invalid game input event: Cannot fire a missile now"@,
            },
    {
        match self {
            InputEventError::NoShipToFireMissile =>
                "Invalid game input event: No ship that can fire a missile",
            InputEventError::InvalidMissileAngle =>
                "Invalid game input event: Invalid angle for missile",
            InputEventError::InvalidMissileSpeed =>
                "Invalid game input event: Invalid speed for missile",
            InputEventError::CannotFireNow => "Invalid game input event: Cannot fire a missile now",
        }
    }
}

/// How a player wants to fire: the direction, as an angle in the plane of
/// play, and the speed.
#[derive(Clone, Copy, Debug, PartialEq, Eq, Structural)]
pub struct MissileParams {
    pub angle: Scalar,
    pub speed: Scalar,
}

impl MissileParams {
    /// The angle is a finite number.
    pub open spec fn valid_angle(self) -> bool {
        self.angle.finite()
    }

    /// The speed is a finite number from zero to the highest speed allowed,
    /// which is ten.
    pub open spec fn valid_speed(self) -> bool {
        self.speed.finite() && 0 <= self.speed.value() <= Scalar::whole(10)
    }

    pub fn new(angle: Scalar, speed: Scalar) -> (params: MissileParams)
        ensures
            params == (MissileParams { angle, speed }),
    {
        MissileParams { angle, speed }
    }

    /// Whether the angle is a finite number.
    pub fn has_valid_angle(&self) -> (valid: bool)
        ensures
            valid == self.valid_angle(),
    {
        self.angle.is_finite()
    }

    /// Whether the speed is a number from zero to the highest speed allowed.
    pub fn has_valid_speed(&self) -> (valid: bool)
        ensures
            valid == self.valid_speed(),
    {
        let limit = Scalar::from_bits(MISSILE_MAX_VELOCITY_BITS);
        proof {
            lemma_values_of_one_and_ten();
        }
        self.speed.is_between_zero_and(limit)
    }
}

/// How a missile leaves its ship, as the host's physics works it out from
/// the player's angle and speed: the point just outside the ship's hull from
/// which the missile starts, and the velocity it starts with.
#[derive(Clone, Copy, Debug, PartialEq, Eq, Structural)]
pub struct Launch {
    pub position: Vector3,
    pub velocity: Vector3,
}

} // verus!
