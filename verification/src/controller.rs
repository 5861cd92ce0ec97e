//! Turning raw stick readings into one of nine discrete directions.

use vstd::prelude::*;
use crate::button::ButtonArg;
use crate::config::CONTROLLER_STICK_THRESHOLD;
use crate::drive::DriveArg;
use crate::smooth::Smooth;

verus! {

/// The direction a stick points in, once small deflections are ignored.
///
/// A diagonal remembers which axis was pushed further when it was sampled:
/// the flag is `true` when the vertical axis dominated.
#[derive(Debug, Clone, Copy, PartialEq, Eq, Structural)]
pub enum StickState {
    Neutral,
    North,
    NorthEast(bool),
    East,
    SouthEast(bool),
    South,
    SouthWest(bool),
    West,
    NorthWest(bool),
}

/// One reading of a two-axis stick. Positive `x` is east, positive `y` is
/// north.
#[derive(Debug, Clone, Copy, PartialEq, Eq, Structural)]
pub struct Stick {
    pub x: i8,
    pub y: i8,
}

/// The size of an axis reading, without its sign.
pub open spec fn magnitude(v: i8) -> int {
    if v < 0 {
        -(v as int)
    } else {
        v as int
    }
}

/// The direction that a reading of `x` and `y` stands for.
///
/// An axis counts only when its magnitude is strictly above `threshold`.
/// With no axis counting the stick is neutral, with one it points along that
/// axis, and with both it points along the diagonal between them.
pub open spec fn classified(x: i8, y: i8, threshold: u8) -> StickState {
    let vertical = magnitude(y) > threshold;
    let horizontal = magnitude(x) > threshold;
    let north_larger = magnitude(y) > magnitude(x);
    if !vertical && !horizontal {
        StickState::Neutral
    } else if vertical && !horizontal {
        if y >= 0 {
            StickState::North
        } else {
            StickState::South
        }
    } else if !vertical && horizontal {
        if x >= 0 {
            StickState::East
        } else {
            StickState::West
        }
    } else if y >= 0 && x >= 0 {
        StickState::NorthEast(north_larger)
    } else if y >= 0 {
        StickState::NorthWest(north_larger)
    } else if x >= 0 {
        StickState::SouthEast(north_larger)
    } else {
        StickState::SouthWest(north_larger)
    }
}

/// The command for a direction that is taken at face value, at reduced
/// speed: a cardinal direction drives or turns that way, a neutral stick
/// stops, and a diagonal, which no single command expresses, stalls.
pub open spec fn direct(state: StickState, button: ButtonArg) -> DriveArg {
    match state {
        StickState::Neutral => DriveArg::Stop(button, true),
        StickState::North => DriveArg::Forward(button, true),
        StickState::East => DriveArg::Right(button, true),
        StickState::South => DriveArg::Backward(button, true),
        StickState::West => DriveArg::Left(button, true),
        _ => DriveArg::Stall(button, true),
    }
}

/// The size of an axis reading, without its sign.
pub fn unsigned(v: i8) -> (size: u8)
    ensures
        size == magnitude(v),
{
    if v < 0 {
        (0 - v as i16) as u8
    } else {
        v as u8
    }
}

impl Stick {
    /// A reading with the given deflections.
    pub fn new(x: i8, y: i8) -> (stick: Self)
        ensures
            stick.x == x,
            stick.y == y,
    {
        Stick { x, y }
    }

    /// The direction the stick points in, for the given dead-zone.
    pub fn gen_state(&self, threshold: u8) -> (state: StickState)
        ensures
            state == classified(self.x, self.y, threshold),
    {
        let abs_x = unsigned(self.x);
        let abs_y = unsigned(self.y);
        let pos_x = self.x > -1i8;
        let pos_y = self.y > -1i8;
        match (abs_y > threshold, abs_x > threshold) {
            (false, false) => StickState::Neutral,
            (true, false) => if pos_y {
                StickState::North
            } else {
                StickState::South
            },
            (false, true) => if pos_x {
                StickState::East
            } else {
                StickState::West
            },
            (true, true) => match (pos_y, pos_x) {
                (true, true) => StickState::NorthEast(abs_y > abs_x),
                (true, false) => StickState::NorthWest(abs_y > abs_x),
                (false, true) => StickState::SouthEast(abs_y > abs_x),
                (false, false) => StickState::SouthWest(abs_y > abs_x),
            },
        }
    }

    /// The direction the stick points in, with the configured dead-zone.
    pub open spec fn state(self) -> StickState {
        classified(self.x, self.y, CONTROLLER_STICK_THRESHOLD)
    }

    /// The command for the stick's direction taken at face value.
    pub fn abs_arg(&self, button: ButtonArg) -> (arg: DriveArg)
        ensures
            arg == direct(self.state(), button),
    {
        match self.gen_state(CONTROLLER_STICK_THRESHOLD) {
            StickState::Neutral => DriveArg::Stop(button, true),
            StickState::North => DriveArg::Forward(button, true),
            StickState::East => DriveArg::Right(button, true),
            StickState::South => DriveArg::Backward(button, true),
            StickState::West => DriveArg::Left(button, true),
            _ => DriveArg::Stall(button, true),
        }
    }

    /// The command for the stick's direction after smoothing; `smooth` takes
    /// note of the reading.
    pub fn smooth_arg(&self, smooth: &mut Smooth, button: ButtonArg) -> (arg: DriveArg)
        requires
            self.state() == old(smooth).action ==> old(smooth).ticks < u16::MAX,
        ensures
            *final(smooth) == old(smooth).advanced(self.state()),
            arg == old(smooth).advanced(self.state()).resolved(button),
    {
        let state = self.gen_state(CONTROLLER_STICK_THRESHOLD);
        smooth.gen_arg(state, button)
    }
}

/// Everything read from the controller in one tick.
#[derive(Debug, Clone, Copy, PartialEq, Eq, Structural)]
pub struct Packet {
    pub left_stick: Stick,
    pub right_stick: Stick,
    pub button_a: bool,
}

impl Packet {
    /// The readings of one tick.
    pub fn new(left_stick: Stick, right_stick: Stick, button_a: bool) -> (packet: Self)
        ensures
            packet == (Packet { left_stick, right_stick, button_a }),
    {
        Packet { left_stick, right_stick, button_a }
    }

    /// The auxiliary button that the readings ask for.
    pub open spec fn button(self) -> ButtonArg {
        if self.button_a {
            ButtonArg::A
        } else {
            ButtonArg::Null
        }
    }

    /// The one command of this tick: the smoothed left stick merged with the
    /// right stick taken at face value.
    pub fn gen_arg(&self, smooth: &mut Smooth) -> (arg: DriveArg)
        requires
            self.left_stick.state() == old(smooth).action ==> old(smooth).ticks < u16::MAX,
        ensures
            *final(smooth) == old(smooth).advanced(self.left_stick.state()),
            arg == DriveArg::merged(
                old(smooth).advanced(self.left_stick.state()).resolved(self.button()),
                direct(self.right_stick.state(), self.button()),
            ),
    {
        let left: DriveArg = self.left_stick.smooth_arg(smooth, self.gen_button());
        let right: DriveArg = self.right_stick.abs_arg(self.gen_button());
        DriveArg::add(left, right)
    }

    /// The auxiliary button that the readings ask for.
    pub fn gen_button(&self) -> (button: ButtonArg)
        ensures
            button == self.button(),
    {
        if self.button_a {
            ButtonArg::A
        } else {
            ButtonArg::Null
        }
    }
}

/// Every reading has a direction, whatever the dead-zone, and an axis that
/// sits exactly on the dead-zone's edge does not count as deflected.
pub proof fn lemma_threshold_is_exclusive(x: i8, y: i8, threshold: u8)
    ensures
        magnitude(x) <= threshold && magnitude(y) <= threshold ==> classified(x, y, threshold)
            == StickState::Neutral,
        magnitude(x) <= threshold && magnitude(y) > threshold ==> classified(x, y, threshold) == (
        if y >= 0 {
            StickState::North
        } else {
            StickState::South
        }),
        magnitude(y) <= threshold && magnitude(x) > threshold ==> classified(x, y, threshold) == (
        if x >= 0 {
            StickState::East
        } else {
            StickState::West
        }),
{
}

} // verus!
