//! The drive command shared by manual and scripted control, and the rule that
//! combines two commands of one tick.

use vstd::prelude::*;
use vstd::string::*;
use crate::button::ButtonArg;
use crate::config::{
    BACKWARD_SPEED, FORWARD_SPEED, PRECISE_BACKWARD_SPEED, PRECISE_FORWARD_SPEED,
    PRECISE_TURN_SPEED, TURN_SPEED,
};
use crate::utils::{decimal, digits, truth};

pub mod drive_state;

verus! {

/// What the drive is asked to do during one tick.
///
/// Every variant carries the auxiliary button that rides along and a
/// `precise` flag that asks for reduced speed. `Stop` means that no motion is
/// requested; `Stall` means that two requests contradicted each other and the
/// drive is left as it is.
#[derive(Debug, Clone, Copy, PartialEq, Eq, Structural)]
pub enum DriveArg {
    Forward(ButtonArg, bool),
    Backward(ButtonArg, bool),
    Left(ButtonArg, bool),
    Right(ButtonArg, bool),
    Stop(ButtonArg, bool),
    Stall(ButtonArg, bool),
}

impl DriveArg {
    /// The command that two simultaneous requests amount to.
    ///
    /// A `Stop` on either side gives way to the other side. Two equal
    /// requests stay what they are. Anything else is a conflict and becomes a
    /// bare `Stall`.
    pub open spec fn merged(first: Self, second: Self) -> Self {
        if second is Stop {
            first
        } else if first is Stop {
            second
        } else if first == second {
            first
        } else {
            DriveArg::Stall(ButtonArg::Null, false)
        }
    }

    /// The auxiliary button carried by the command.
    pub open spec fn button(self) -> ButtonArg {
        match self {
            DriveArg::Forward(b, _) => b,
            DriveArg::Backward(b, _) => b,
            DriveArg::Left(b, _) => b,
            DriveArg::Right(b, _) => b,
            DriveArg::Stop(b, _) => b,
            DriveArg::Stall(b, _) => b,
        }
    }

    /// Whether the command asks for reduced speed. `Stop` and `Stall` move
    /// nothing, so they never do.
    pub open spec fn precise(self) -> bool {
        match self {
            DriveArg::Forward(_, p) => p,
            DriveArg::Backward(_, p) => p,
            DriveArg::Left(_, p) => p,
            DriveArg::Right(_, p) => p,
            DriveArg::Stop(_, _) => false,
            DriveArg::Stall(_, _) => false,
        }
    }

    /// The command's name.
    pub open spec fn name(self) -> Seq<char> {
        match self {
            DriveArg::Forward(_, _) => "Forward"@,
            DriveArg::Backward(_, _) => "Backward"@,
            DriveArg::Left(_, _) => "Left"@,
            DriveArg::Right(_, _) => "Right"@,
            DriveArg::Stop(_, _) => "Stop"@,
            DriveArg::Stall(_, _) => "Stall"@,
        }
    }

    /// The same command with the `precise` flag cleared where it means
    /// nothing, that is on `Stop` and `Stall`.
    pub open spec fn normalized(self) -> Self {
        match self {
            DriveArg::Stop(b, _) => DriveArg::Stop(b, false),
            DriveArg::Stall(b, _) => DriveArg::Stall(b, false),
            moving => moving,
        }
    }

    /// The line that reports the command given at `tick`: the tick in
    /// square brackets, the label `Drive Arg`, then the command's name with
    /// its button in round brackets and whether it is precise.
    pub open spec fn log_line(self, tick: u32) -> Seq<char> {
        "["@ + digits(tick as nat) + "] Drive Arg: "@ + self.name() + "("@ + self.button().name()
            + ") Precise: "@ + truth(self.precise())
    }

    /// Combines the commands derived from two sources in the same tick.
    pub fn add(first: Self, second: Self) -> (out: Self)
        ensures
            out == Self::merged(first, second),
    {
        match (first, second) {
            (x, DriveArg::Stop(_, _)) => x,
            (DriveArg::Stop(_, _), y) => y,
            (x, y) => if x == y {
                x
            } else {
                DriveArg::Stall(ButtonArg::Null, false)
            },
        }
    }

    /// The auxiliary button carried by the command.
    pub fn get_button(&self) -> (button: &ButtonArg)
        ensures
            *button == self.button(),
    {
        match self {
            DriveArg::Forward(x, _) => x,
            DriveArg::Backward(x, _) => x,
            DriveArg::Left(x, _) => x,
            DriveArg::Right(x, _) => x,
            DriveArg::Stop(x, _) => x,
            DriveArg::Stall(x, _) => x,
        }
    }

    /// Puts the command into effect on the drive. A `Stall` leaves the
    /// motors as they are.
    pub fn execute(&self, drive: &mut Drive)
        ensures
            *final(drive) == old(drive).driven(*self),
    {
        match self {
            DriveArg::Forward(_, precise) => drive.forwards(*precise),
            DriveArg::Backward(_, precise) => drive.backwards(*precise),
            DriveArg::Left(_, precise) => drive.left(*precise),
            DriveArg::Right(_, precise) => drive.right(*precise),
            DriveArg::Stop(_, _) => drive.stop(),
            DriveArg::Stall(_, _) => (),
        }
    }

    /// The command's name, its button's name and whether it asks for reduced
    /// speed.
    pub fn to_strings(&self) -> (parts: (&'static str, &'static str, bool))
        ensures
            parts.0@ == self.name(),
            parts.1@ == self.button().name(),
            parts.2 == self.precise(),
    {
        match self {
            DriveArg::Forward(x, precise) => ("Forward", x.to_str(), *precise),
            DriveArg::Backward(x, precise) => ("Backward", x.to_str(), *precise),
            DriveArg::Left(x, precise) => ("Left", x.to_str(), *precise),
            DriveArg::Right(x, precise) => ("Right", x.to_str(), *precise),
            DriveArg::Stop(x, _) => ("Stop", x.to_str(), false),
            DriveArg::Stall(x, _) => ("Stall", x.to_str(), false),
        }
    }

    /// The line that reports the command given at `tick`.
    pub fn log(&self, tick: &u32) -> (line: String)
        ensures
            line@ == self.log_line(*tick),
    {
        let (name, button, precise) = self.to_strings();
        let mut line = String::from_str("[");
        line.append(decimal(*tick as u64).as_str());
        line.append("] Drive Arg: ");
        line.append(name);
        line.append("(");
        line.append(button);
        line.append(") Precise: ");
        line.append(
            if precise {
                "true"
            } else {
                "false"
            },
        );
        line
    }

    /// A copy of the command, normalized.
    pub fn duplicate(&self) -> (copy: Self)
        ensures
            copy == self.normalized(),
    {
        match self {
            DriveArg::Forward(x, precise) => DriveArg::Forward(x.duplicate(), *precise),
            DriveArg::Backward(x, precise) => DriveArg::Backward(x.duplicate(), *precise),
            DriveArg::Left(x, precise) => DriveArg::Left(x.duplicate(), *precise),
            DriveArg::Right(x, precise) => DriveArg::Right(x.duplicate(), *precise),
            DriveArg::Stop(x, _) => DriveArg::Stop(x.duplicate(), false),
            DriveArg::Stall(x, _) => DriveArg::Stall(x.duplicate(), false),
        }
    }
}

/// The power asked of each of the four drive motors, from `-127` to `127`.
///
/// Motors 1 and 3 sit on the left side, motors 2 and 4 on the right.
#[derive(Debug, Clone, Copy, PartialEq, Eq, Structural)]
pub struct Drive {
    pub motor1: i8,
    pub motor2: i8,
    pub motor3: i8,
    pub motor4: i8,
}

/// The motor power for a speed given out of `100`: that share of `127`,
/// rounded towards zero.
pub open spec fn power(speed: int) -> int {
    if speed >= 0 {
        127 * speed / 100
    } else {
        -(127 * (-speed) / 100)
    }
}

/// The speed, out of `100`, for driving forward.
pub open spec fn forward_speed(precise: bool) -> int {
    if precise {
        PRECISE_FORWARD_SPEED as int
    } else {
        FORWARD_SPEED as int
    }
}

/// The speed, out of `100`, for driving backward.
pub open spec fn backward_speed(precise: bool) -> int {
    if precise {
        PRECISE_BACKWARD_SPEED as int
    } else {
        BACKWARD_SPEED as int
    }
}

/// The speed, out of `100`, for turning on the spot.
pub open spec fn turn_speed(precise: bool) -> int {
    if precise {
        PRECISE_TURN_SPEED as int
    } else {
        TURN_SPEED as int
    }
}

impl Drive {
    /// A drive whose left motors run at `left` and whose right motors run at
    /// `right`.
    pub open spec fn sides(left: int, right: int) -> Self {
        Drive { motor1: left as i8, motor2: right as i8, motor3: left as i8, motor4: right as i8 }
    }

    /// The drive after `arg` has been put into effect.
    ///
    /// Driving runs all motors the same way, turning runs the two sides
    /// against each other, `Stop` brings everything to rest and `Stall`
    /// changes nothing.
    pub open spec fn driven(self, arg: DriveArg) -> Self {
        match arg {
            DriveArg::Forward(_, precise) => Self::sides(
                power(forward_speed(precise)),
                power(forward_speed(precise)),
            ),
            DriveArg::Backward(_, precise) => Self::sides(
                power(-backward_speed(precise)),
                power(-backward_speed(precise)),
            ),
            DriveArg::Left(_, precise) => Self::sides(
                power(-turn_speed(precise)),
                power(turn_speed(precise)),
            ),
            DriveArg::Right(_, precise) => Self::sides(
                power(turn_speed(precise)),
                power(-turn_speed(precise)),
            ),
            DriveArg::Stop(_, _) => Self::sides(0, 0),
            DriveArg::Stall(_, _) => self,
        }
    }

    /// A drive at rest.
    pub fn new() -> (drive: Self)
        ensures
            drive == Self::sides(0, 0),
    {
        Drive { motor1: 0, motor2: 0, motor3: 0, motor4: 0 }
    }

    /// Puts `arg` into effect.
    pub fn drive(&mut self, arg: DriveArg)
        ensures
            *final(self) == old(self).driven(arg),
    {
        arg.execute(self);
    }

    /// Runs all motors forward.
    pub fn forwards(&mut self, precise: bool)
        ensures
            *final(self) == Self::sides(power(forward_speed(precise)), power(forward_speed(precise))),
    {
        let volt = Self::cal_volt(
            if precise {
                PRECISE_FORWARD_SPEED
            } else {
                FORWARD_SPEED
            },
        );
        self.set_sides(volt, volt);
    }

    /// Brings all motors to rest.
    pub fn stop(&mut self)
        ensures
            *final(self) == Self::sides(0, 0),
    {
        self.set_sides(0, 0);
    }

    /// Runs all motors backward.
    pub fn backwards(&mut self, precise: bool)
        ensures
            *final(self) == Self::sides(
                power(-backward_speed(precise)),
                power(-backward_speed(precise)),
            ),
    {
        let volt = Self::cal_volt(
            -if precise {
                PRECISE_BACKWARD_SPEED
            } else {
                BACKWARD_SPEED
            },
        );
        self.set_sides(volt, volt);
    }

    /// Turns to the left: the right side runs forward, the left side
    /// backward.
    pub fn left(&mut self, precise: bool)
        ensures
            *final(self) == Self::sides(power(-turn_speed(precise)), power(turn_speed(precise))),
    {
        let turnspeed: i8 = if precise {
            PRECISE_TURN_SPEED
        } else {
            TURN_SPEED
        };
        self.set_sides(Self::cal_volt(-turnspeed), Self::cal_volt(turnspeed));
    }

    /// Turns to the right: the left side runs forward, the right side
    /// backward.
    pub fn right(&mut self, precise: bool)
        ensures
            *final(self) == Self::sides(power(turn_speed(precise)), power(-turn_speed(precise))),
    {
        let turnspeed: i8 = if precise {
            PRECISE_TURN_SPEED
        } else {
            TURN_SPEED
        };
        self.set_sides(Self::cal_volt(turnspeed), Self::cal_volt(-turnspeed));
    }

    fn set_sides(&mut self, left: i8, right: i8)
        ensures
            *final(self) == Self::sides(left as int, right as int),
    {
        self.motor1 = left;
        self.motor2 = right;
        self.motor3 = left;
        self.motor4 = right;
    }

    fn cal_volt(speed: i8) -> (volt: i8)
        requires
            -100 <= speed <= 100,
        ensures
            volt == power(speed as int),
            -127 <= volt <= 127,
    {
        (127i16 * speed as i16 / 100i16) as i8
    }
}

/// A `Stop` on the right leaves any command unchanged, and a `Stop` on the
/// left leaves any moving command unchanged.
///
/// Two `Stop`s that differ in what they carry merge to the left one, which is
/// why the left-hand statement needs `x` to be the same `Stop` or none at all.
pub proof fn lemma_stop_is_identity(stop: DriveArg, x: DriveArg)
    requires
        stop is Stop,
    ensures
        DriveArg::merged(x, stop) == x,
        !(x is Stop) || x == stop ==> DriveArg::merged(stop, x) == x,
{
}

/// Merging does not depend on which source comes first, unless both sides
/// are `Stop`s that differ in what they carry; and a command merged with
/// itself stays what it is.
pub proof fn lemma_merge_commutes(x: DriveArg, y: DriveArg)
    requires
        !(x is Stop && y is Stop) || x == y,
    ensures
        DriveArg::merged(x, y) == DriveArg::merged(y, x),
        DriveArg::merged(x, x) == x,
{
}

/// Two different commands, neither of them a `Stop`, merge to a bare `Stall`.
pub proof fn lemma_conflict_stalls(x: DriveArg, y: DriveArg)
    requires
        !(x is Stop),
        !(y is Stop),
        x != y,
    ensures
        DriveArg::merged(x, y) == DriveArg::Stall(ButtonArg::Null, false),
{
}

} // verus!
