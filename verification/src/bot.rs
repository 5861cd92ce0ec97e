//! What the robot decides on each tick, in driver control and in its
//! autonomous period.

use vstd::prelude::*;
use crate::bytecode::{applied, execute, remaining, ByteCode};
use crate::config::{BELT_VOLTAGE, INTAKE_VOLTAGE};
use crate::{append_slice, reverse_in_place};

verus! {

/// The robot's instruction stack. Its next instruction is the last element.
pub struct Robot {
    bytecode: Vec<ByteCode>,
}

/// The instructions that bring every actuator to rest, as stacked.
pub open spec fn rest_instructions() -> Seq<ByteCode> {
    seq![
        ByteCode::LeftDrive { voltage: 0 },
        ByteCode::RightDrive { voltage: 0 },
        ByteCode::Belt { voltage: 0 },
        ByteCode::Intake { voltage: 0 },
    ]
}

/// The belt and intake instructions that the `x` and `b` buttons ask for.
///
/// `x` runs the belt forward and `b`, unless `x` is held too, backward; the
/// intake runs with either. With neither held both rest.
pub open spec fn mechanism_instructions(x: bool, b: bool) -> Seq<ByteCode> {
    if x {
        seq![ByteCode::Belt { voltage: BELT_VOLTAGE }, ByteCode::Intake { voltage: INTAKE_VOLTAGE }]
    } else if b {
        seq![
            ByteCode::Belt { voltage: (-BELT_VOLTAGE) as i32 },
            ByteCode::Intake { voltage: INTAKE_VOLTAGE },
        ]
    } else {
        seq![ByteCode::Belt { voltage: 0 }, ByteCode::Intake { voltage: 0 }]
    }
}

impl View for Robot {
    type V = Seq<ByteCode>;

    closed spec fn view(&self) -> Seq<ByteCode> {
        self.bytecode@
    }
}

impl Robot {
    /// A robot loaded with `routine`, which is given in the order in which
    /// it is to be played.
    pub fn new(routine: Vec<ByteCode>) -> (robot: Self)
        ensures
            robot@ == routine@.reverse(),
    {
        Robot { bytecode: reverse_in_place(routine) }
    }

    /// One tick of driver control. It never ends by itself, so the answer
    /// is always `false`.
    ///
    /// Whatever is left of the routine is dropped and every actuator is
    /// brought to rest first. Then the drive instructions of this tick,
    /// followed by what the buttons ask of belt and intake, are stacked and
    /// played. Everything applied is appended to `sink` in the order
    /// applied.
    pub fn opcontrol(
        &mut self,
        drive_inst: &[ByteCode],
        x: bool,
        b: bool,
        sink: &mut Vec<ByteCode>,
    ) -> (done: bool)
        ensures
            !done,
            final(self)@ == remaining(drive_inst@ + mechanism_instructions(x, b)),
            final(sink)@ == old(sink)@ + applied(rest_instructions()) + applied(
                drive_inst@ + mechanism_instructions(x, b),
            ),
    {
        self.bytecode.clear();
        let mut rest: Vec<ByteCode> = Vec::new();
        rest.push(ByteCode::LeftDrive { voltage: 0 });
        rest.push(ByteCode::RightDrive { voltage: 0 });
        rest.push(ByteCode::Belt { voltage: 0 });
        rest.push(ByteCode::Intake { voltage: 0 });
        assert(rest@ =~= rest_instructions());
        execute(&mut rest, sink);

        let (belt_inst, intake_inst) = match (x, b) {
            (true, _) => (
                ByteCode::Belt { voltage: BELT_VOLTAGE },
                ByteCode::Intake { voltage: INTAKE_VOLTAGE },
            ),
            (_, true) => (
                ByteCode::Belt { voltage: -BELT_VOLTAGE },
                ByteCode::Intake { voltage: INTAKE_VOLTAGE },
            ),
            (_, _) => (ByteCode::Belt { voltage: 0 }, ByteCode::Intake { voltage: 0 }),
        };

        append_slice(&mut self.bytecode, drive_inst);
        self.bytecode.push(belt_inst);
        self.bytecode.push(intake_inst);
        assert(self.bytecode@ =~= drive_inst@ + mechanism_instructions(x, b));

        execute(&mut self.bytecode, sink);
        false
    }

    /// One tick of the autonomous period; the answer says whether the
    /// routine was already over.
    ///
    /// A routine that is over applies nothing. Otherwise one tick of it is
    /// played, and everything applied is appended to `sink` in the order
    /// applied.
    pub fn autonomous(&mut self, sink: &mut Vec<ByteCode>) -> (done: bool)
        ensures
            done == (old(self)@.len() == 0),
            final(self)@ == remaining(old(self)@),
            final(sink)@ == old(sink)@ + applied(old(self)@),
    {
        if self.bytecode.is_empty() {
            assert(sink@ + Seq::<ByteCode>::empty() =~= sink@);
            return true;
        }
        execute(&mut self.bytecode, sink);
        false
    }
}

} // verus!
