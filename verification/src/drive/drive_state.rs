//! Stick-proportional driving: from one stick and two shoulder buttons to
//! a voltage for each of the four drive motors.

use vstd::prelude::*;
use crate::controller::{magnitude, unsigned};
use crate::config::{
    CONTROLLER_STICK_MIN, DRIVE_BACKWARD_SPEED, DRIVE_FORWARD_SPEED, DRIVE_STRAFE_SPEED,
    DRIVE_TURN_SPEED,
};

verus! {

/// One reading of a two-axis stick. Positive `x` is right, positive `y` is
/// forward.
#[derive(Debug, Clone, Copy, PartialEq, Eq, Structural)]
pub struct JoyStick {
    pub x: i8,
    pub y: i8,
}

impl JoyStick {
    /// The reading with every axis smaller than `min` set to zero.
    pub open spec fn clamped(self, min: u8) -> Self {
        JoyStick {
            x: if magnitude(self.x) < min {
                0i8
            } else {
                self.x
            },
            y: if magnitude(self.y) < min {
                0i8
            } else {
                self.y
            },
        }
    }

    /// Whether the stick is pushed further sideways than along.
    pub open spec fn x_dominates(self) -> bool {
        magnitude(self.x) > magnitude(self.y)
    }

    /// The reading with every axis smaller than `min` set to zero.
    pub fn clamp(self, min: u8) -> (out: Self)
        ensures
            out == self.clamped(min),
    {
        let mut out = self;
        if unsigned(out.x) < min {
            out.x = 0;
        }
        if unsigned(out.y) < min {
            out.y = 0;
        }
        out
    }

    /// Whether the stick is pushed further sideways than along.
    pub fn x_larger(&self) -> (larger: bool)
        ensures
            larger == self.x_dominates(),
    {
        unsigned(self.x) > unsigned(self.y)
    }
}

/// The voltage for each of the four drive motors: `l1` and `l2` are the
/// front and rear motor on the left, `r1` and `r2` those on the right.
#[derive(Debug, Clone, Copy, PartialEq, Eq, Structural)]
pub struct DriveState {
    pub l1: i32,
    pub l2: i32,
    pub r1: i32,
    pub r2: i32,
}

/// One movement asked of the drive-train. The number is how far the stick
/// is pushed.
#[derive(Debug, Clone, Copy, PartialEq, Eq, Structural)]
pub enum DriveArg {
    Forward(u8),
    Backward(u8),
    /// Turn left.
    TLeft(u8),
    /// Turn right.
    TRight(u8),
    /// Strafe left.
    SLeft,
    /// Strafe right.
    SRight,
}

/// The movement, if any, that the stick and the two shoulder buttons ask
/// for.
///
/// The stick is read along its dominant axis, after drift has been
/// removed. A deflected stick overrides the buttons; of the buttons, `l2`
/// overrides `r2`.
pub open spec fn requested(left_stick: JoyStick, l2: bool, r2: bool) -> Seq<DriveArg> {
    let stick = left_stick.clamped(CONTROLLER_STICK_MIN);
    let sideways = stick.x_dominates();
    let axis = if sideways {
        stick.x
    } else {
        stick.y
    };
    if axis != 0 {
        seq![
            if sideways && axis > 0 {
                DriveArg::TRight(axis as u8)
            } else if sideways {
                DriveArg::TLeft(magnitude(axis) as u8)
            } else if axis > 0 {
                DriveArg::Forward(axis as u8)
            } else {
                DriveArg::Backward(magnitude(axis) as u8)
            },
        ]
    } else if l2 {
        seq![DriveArg::SLeft]
    } else if r2 {
        seq![DriveArg::SRight]
    } else {
        Seq::empty()
    }
}

/// The voltage for a stick pushed to `stick` out of `127`, at `percent`
/// out of `100` of the full voltage, which is `i32::MAX`.
///
/// A share above `100` counts as `100`, the result is rounded down, and it
/// never exceeds the full voltage.
pub open spec fn voltage(stick: u8, percent: u8) -> int {
    let share: int = if percent > 100 {
        100
    } else {
        percent as int
    };
    let exact = (i32::MAX as int * share * stick as int) / 12700;
    if exact > i32::MAX {
        i32::MAX as int
    } else {
        exact
    }
}

impl DriveArg {
    /// The movement, if any, that the stick and the two shoulder buttons
    /// ask for: no element or one.
    pub fn new(left_stick: JoyStick, l2: bool, r2: bool) -> (args: Vec<DriveArg>)
        ensures
            args@ == requested(left_stick, l2, r2),
    {
        let stick = left_stick.clamp(CONTROLLER_STICK_MIN);
        let mut args: Vec<DriveArg> = Vec::new();
        let mut movement_arg = false;

        let axis = if stick.x_larger() {
            stick.x
        } else {
            stick.y
        };
        if axis != 0 {
            movement_arg = true;
            args.push(
                match (stick.x_larger(), axis > 0) {
                    (true, true) => DriveArg::TRight(axis as u8),
                    (true, false) => DriveArg::TLeft(unsigned(axis)),
                    (false, true) => DriveArg::Forward(axis as u8),
                    (false, false) => DriveArg::Backward(unsigned(axis)),
                },
            );
        }
        if !movement_arg {
            if l2 {
                args.push(DriveArg::SLeft);
            } else if r2 {
                args.push(DriveArg::SRight);
            }
        }
        assert(args@ =~= requested(left_stick, l2, r2));
        args
    }
}

impl DriveState {
    /// All four motors at rest.
    pub open spec fn at_rest() -> Self {
        DriveState { l1: 0, l2: 0, r1: 0, r2: 0 }
    }

    /// The motor voltages that carry out one movement.
    ///
    /// Driving runs all four motors the same way and turning runs the two
    /// sides against each other. Strafing, always at the full stick
    /// deflection of `127`, runs the two motors of each side against each
    /// other, and the two sides crosswise.
    pub open spec fn carrying_out(arg: DriveArg) -> Self {
        match arg {
            DriveArg::Forward(x) => {
                let v = voltage(x, DRIVE_FORWARD_SPEED) as i32;
                DriveState { l1: v, l2: v, r1: v, r2: v }
            },
            DriveArg::Backward(x) => {
                let v = voltage(x, DRIVE_BACKWARD_SPEED);
                DriveState { l1: (-v) as i32, l2: (-v) as i32, r1: (-v) as i32, r2: (-v) as i32 }
            },
            DriveArg::TLeft(x) => {
                let v = voltage(x, DRIVE_TURN_SPEED);
                DriveState { l1: (-v) as i32, l2: (-v) as i32, r1: v as i32, r2: v as i32 }
            },
            DriveArg::TRight(x) => {
                let v = voltage(x, DRIVE_TURN_SPEED);
                DriveState { l1: v as i32, l2: v as i32, r1: (-v) as i32, r2: (-v) as i32 }
            },
            DriveArg::SLeft => {
                let v = voltage(127, DRIVE_STRAFE_SPEED);
                DriveState { l1: v as i32, l2: (-v) as i32, r1: (-v) as i32, r2: v as i32 }
            },
            DriveArg::SRight => {
                let v = voltage(127, DRIVE_STRAFE_SPEED);
                DriveState { l1: (-v) as i32, l2: v as i32, r1: v as i32, r2: (-v) as i32 }
            },
        }
    }

    /// The motor voltages after a list of movements: those of the last
    /// movement, or rest for an empty list.
    pub open spec fn settled(args: Seq<DriveArg>) -> Self {
        if args.len() == 0 {
            Self::at_rest()
        } else {
            Self::carrying_out(args.last())
        }
    }

    /// The motor voltages that carry out `args`. Each movement overrides
    /// the ones before it.
    pub fn new(args: &[DriveArg]) -> (state: Self)
        ensures
            state == Self::settled(args@),
    {
        let mut state = DriveState { l1: 0, l2: 0, r1: 0, r2: 0 };

        let mut i: usize = 0;
        while i < args.len()
            invariant
                i <= args.len(),
                state == Self::settled(args@.take(i as int)),
            decreases args.len() - i,
        {
            match args[i] {
                DriveArg::Forward(x) => {
                    let voltage = calculate_voltage(x, DRIVE_FORWARD_SPEED);
                    state.l1 = voltage;
                    state.l2 = voltage;
                    state.r1 = voltage;
                    state.r2 = voltage;
                },
                DriveArg::Backward(x) => {
                    let voltage = calculate_voltage(x, DRIVE_BACKWARD_SPEED);
                    state.l1 = -voltage;
                    state.l2 = -voltage;
                    state.r1 = -voltage;
                    state.r2 = -voltage;
                },
                DriveArg::TLeft(x) => {
                    let voltage = calculate_voltage(x, DRIVE_TURN_SPEED);
                    state.l1 = -voltage;
                    state.l2 = -voltage;
                    state.r1 = voltage;
                    state.r2 = voltage;
                },
                DriveArg::TRight(x) => {
                    let voltage = calculate_voltage(x, DRIVE_TURN_SPEED);
                    state.l1 = voltage;
                    state.l2 = voltage;
                    state.r1 = -voltage;
                    state.r2 = -voltage;
                },
                DriveArg::SLeft => {
                    let voltage = calculate_voltage(127, DRIVE_STRAFE_SPEED);
                    state.l1 = voltage;
                    state.l2 = -voltage;
                    state.r1 = -voltage;
                    state.r2 = voltage;
                },
                DriveArg::SRight => {
                    let voltage = calculate_voltage(127, DRIVE_STRAFE_SPEED);
                    state.l1 = -voltage;
                    state.l2 = voltage;
                    state.r1 = voltage;
                    state.r2 = -voltage;
                },
            }
            i += 1;
            assert(args@.take(i as int).last() == args@[i - 1]);
        }
        assert(args@.take(i as int) =~= args@);
        state
    }
}

/// The voltage for a stick pushed to `stick` out of `127`, at `percent`
/// out of `100` of the full voltage.
pub fn calculate_voltage(stick: u8, percent: u8) -> (volts: i32)
    ensures
        volts == voltage(stick, percent),
        0 <= volts,
{
    let share: i64 = if percent > 100 {
        100
    } else {
        percent as i64
    };
    let scaled: i64 = 2147483647i64 * share;
    assert(0 <= scaled * (stick as i64) <= 2147483647 * 100 * 255) by (nonlinear_arith)
        requires
            0 <= scaled <= 2147483647 * 100,
            0 <= stick <= 255,
    ;
    assert(scaled * (stick as i64) == i32::MAX as int * share * stick as int) by (nonlinear_arith)
        requires
            scaled == 2147483647 * share,
    ;
    let exact: i64 = scaled * (stick as i64) / 12700;
    if exact > 2147483647 {
        2147483647
    } else {
        exact as i32
    }
}

} // verus!
