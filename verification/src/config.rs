//! The tunable constants of the robot, and how a motor is wired.

use vstd::prelude::*;

verus! {

/// Where a motor is plugged in and whether it turns the other way round.
#[derive(Debug, Clone, Copy)]
pub struct MotorConfig {
    pub port: u8,
    pub reverse: bool,
}

/// How far a stick axis has to be pushed before it counts as deflected.
/// A reading of exactly this size does not count.
pub const CONTROLLER_STICK_THRESHOLD: u8 = 10;

/// How many ticks a corrective turn lasts when the stick passes between a
/// cardinal direction and the diagonal next to it.
pub const TICKS_FOR_45: u16 = 10;

/// Drive speeds, each out of `100`: at full speed, and for precise movement.
pub const FORWARD_SPEED: i8 = 100;

pub const BACKWARD_SPEED: i8 = 90;

pub const TURN_SPEED: i8 = 60;

pub const PRECISE_FORWARD_SPEED: i8 = 60;

pub const PRECISE_BACKWARD_SPEED: i8 = 54;

pub const PRECISE_TURN_SPEED: i8 = 36;

/// Below this size a stick axis is read as zero, against stick drift.
pub const CONTROLLER_STICK_MIN: u8 = 10;

/// Shares of the full voltage, each out of `100`, for the movements of the
/// voltage-driven drive-train.
pub const DRIVE_FORWARD_SPEED: u8 = 100;

pub const DRIVE_BACKWARD_SPEED: u8 = 90;

pub const DRIVE_TURN_SPEED: u8 = 60;

pub const DRIVE_STRAFE_SPEED: u8 = 60;

/// The conveyor belt's voltage, out of `12000`.
pub const BELT_VOLTAGE: i32 = 12000;

/// The intake's voltage, out of `12000`.
pub const INTAKE_VOLTAGE: i32 = 12000;

} // verus!
