//! The instructions of a stored routine and the engine that plays them back,
//! one tick at a time.

use vstd::prelude::*;
use crate::algor::{expand, expanded};
use crate::reverse_in_place;

verus! {

/// One instruction of a routine.
#[derive(Debug, Clone, Copy, PartialEq, Eq, Structural)]
pub enum ByteCode {
    /// Ends the tick in which it is reached, and keeps that many further
    /// ticks idle.
    Cycle(u32),
    /// Sets the voltage of the left side of the drive-train.
    LeftDrive { voltage: i32 },
    /// Sets the voltage of the right side of the drive-train.
    RightDrive { voltage: i32 },
    /// Sets the voltage of the conveyor belt.
    Belt { voltage: i32 },
    /// Sets the voltage of the intake.
    Intake { voltage: i32 },
}

/// The outputs that one tick applies, in the order in which it applies them.
///
/// The stack is worked from its end: every output instruction above the
/// topmost `Cycle` is applied, the topmost first.
pub open spec fn applied(stack: Seq<ByteCode>) -> Seq<ByteCode>
    decreases stack.len(),
{
    if stack.len() == 0 || stack.last() is Cycle {
        Seq::empty()
    } else {
        seq![stack.last()] + applied(stack.drop_last())
    }
}

/// The stack that one tick leaves behind.
///
/// Everything above the topmost `Cycle` is gone. A `Cycle(0)` is gone too;
/// any other `Cycle` stays with its count one lower. Without a `Cycle` the
/// stack is used up.
pub open spec fn remaining(stack: Seq<ByteCode>) -> Seq<ByteCode>
    decreases stack.len(),
{
    if stack.len() == 0 {
        stack
    } else {
        match stack.last() {
            ByteCode::Cycle(n) => if n == 0 {
                stack.drop_last()
            } else {
                stack.drop_last().push(ByteCode::Cycle((n - 1) as u32))
            },
            _ => remaining(stack.drop_last()),
        }
    }
}

/// The stack after that many ticks of playback.
pub open spec fn stack_after(stack: Seq<ByteCode>, ticks: nat) -> Seq<ByteCode>
    decreases ticks,
{
    if ticks == 0 {
        stack
    } else {
        remaining(stack_after(stack, (ticks - 1) as nat))
    }
}

/// The outputs applied by the tick that follows `tick` earlier ones.
pub open spec fn outputs_at(stack: Seq<ByteCode>, tick: nat) -> Seq<ByteCode> {
    applied(stack_after(stack, tick))
}

/// Makes a routine ready to be played.
///
/// The routine is written in the order in which it is to be played, as
/// instructions with the number of times each one is to stand there. The
/// stack that comes out holds it laid out and turned round, so that its
/// first instruction is the last element.
pub fn compile(entries: &[(ByteCode, usize)]) -> (stack: Vec<ByteCode>)
    ensures
        stack@ == expanded(entries@).reverse(),
{
    reverse_in_place(expand(entries))
}

/// Plays one tick of the routine held in `bytecode`, whose next instruction
/// is its last element.
///
/// Output instructions are taken off the stack and applied at once, each one
/// being appended to `sink`, until a `Cycle` ends the tick or the stack runs
/// out. An empty stack afterwards means that the routine is over.
pub fn execute(bytecode: &mut Vec<ByteCode>, sink: &mut Vec<ByteCode>)
    ensures
        final(bytecode)@ == remaining(old(bytecode)@),
        final(sink)@ == old(sink)@ + applied(old(bytecode)@),
{
    loop
        invariant
            remaining(bytecode@) == remaining(old(bytecode)@),
            sink@ + applied(bytecode@) == old(sink)@ + applied(old(bytecode)@),
        decreases bytecode.len(),
    {
        let ghost before = bytecode@;
        let ghost logged = sink@;
        match bytecode.pop() {
            None => {
                assert(sink@ + Seq::<ByteCode>::empty() =~= sink@);
                return ;
            },
            Some(ByteCode::Cycle(x)) => {
                assert(sink@ + Seq::<ByteCode>::empty() =~= sink@);
                if x != 0 {
                    bytecode.push(ByteCode::Cycle(x - 1));
                }
                return ;
            },
            Some(inst) => {
                sink.push(inst);
                assert(sink@ + applied(bytecode@) =~= logged + applied(before));
            },
        }
    }
}

/// What a tick applies is exactly the run of output instructions at the end
/// of the stack, read from the end, and what it leaves is the stack below
/// that run with its topmost `Cycle` counted down.
pub proof fn lemma_tick_shape(stack: Seq<ByteCode>)
    ensures
        applied(stack).len() <= stack.len(),
        forall|i: int|
            0 <= i < applied(stack).len() ==> applied(stack)[i] == stack[stack.len() - 1 - i]
                && !(#[trigger] applied(stack)[i] is Cycle),
        applied(stack).len() == stack.len() ==> remaining(stack) == Seq::<ByteCode>::empty(),
        applied(stack).len() < stack.len() ==> {
            let below = stack.take(stack.len() - applied(stack).len() - 1);
            match stack[stack.len() - applied(stack).len() - 1] {
                ByteCode::Cycle(n) => remaining(stack) == if n == 0 {
                    below
                } else {
                    below.push(ByteCode::Cycle((n - 1) as u32))
                },
                _ => false,
            }
        },
    decreases stack.len(),
{
    if stack.len() == 0 {
    } else if stack.last() is Cycle {
        assert(stack.take(stack.len() - 1) =~= stack.drop_last());
    } else {
        let rest = stack.drop_last();
        lemma_tick_shape(rest);
        if applied(rest).len() < rest.len() {
            assert(stack.take(stack.len() - applied(stack).len() - 1) =~= rest.take(
                rest.len() - applied(rest).len() - 1,
            ));
        }
    }
}

/// A tick never makes the stack longer, and an exhausted routine stays
/// exhausted and applies nothing.
pub proof fn lemma_playback_runs_down(stack: Seq<ByteCode>, ticks: nat)
    ensures
        remaining(stack).len() <= stack.len(),
        stack_after(stack, ticks).len() <= stack.len(),
        stack.len() == 0 ==> stack_after(stack, ticks).len() == 0 && outputs_at(stack, ticks).len()
            == 0,
    decreases ticks, stack.len(),
{
    if stack.len() > 0 && !(stack.last() is Cycle) {
        lemma_playback_runs_down(stack.drop_last(), 0);
    }
    if ticks > 0 {
        let earlier = stack_after(stack, (ticks - 1) as nat);
        lemma_playback_runs_down(stack, (ticks - 1) as nat);
        lemma_playback_runs_down(earlier, 0);
    }
}

/// Whether `stacks` and `effects` record a playback that starts from
/// `start`: entry `t` of each holds the stack left and the outputs applied by
/// tick `t`.
pub open spec fn records_playback(
    start: Seq<ByteCode>,
    stacks: Seq<Seq<ByteCode>>,
    effects: Seq<Seq<ByteCode>>,
) -> bool {
    &&& stacks.len() == effects.len()
    &&& forall|t: int|
        #![trigger stacks[t]]
        #![trigger effects[t]]
        0 <= t < stacks.len() ==> stacks[t] == remaining(stack_before(start, stacks, t))
            && effects[t] == applied(stack_before(start, stacks, t))
}

/// The stack that tick `t` of a recorded playback starts from.
pub open spec fn stack_before(start: Seq<ByteCode>, stacks: Seq<Seq<ByteCode>>, t: int) -> Seq<
    ByteCode,
> {
    if t == 0 {
        start
    } else {
        stacks[t - 1]
    }
}

/// Playing a routine back is repeatable: whatever was recorded tick by tick
/// from a given starting stack is fixed by that stack alone, so two
/// playbacks of the same routine agree at every tick.
pub proof fn lemma_playback_is_deterministic(
    start: Seq<ByteCode>,
    stacks: Seq<Seq<ByteCode>>,
    effects: Seq<Seq<ByteCode>>,
    other_stacks: Seq<Seq<ByteCode>>,
    other_effects: Seq<Seq<ByteCode>>,
)
    requires
        records_playback(start, stacks, effects),
        records_playback(start, other_stacks, other_effects),
        stacks.len() == other_stacks.len(),
    ensures
        stacks == other_stacks,
        effects == other_effects,
        forall|t: int|
            0 <= t < stacks.len() ==> #[trigger] stacks[t] == stack_after(start, (t + 1) as nat)
                && effects[t] == outputs_at(start, t as nat),
{
    assert forall|t: int| 0 <= t < stacks.len() implies #[trigger] stacks[t] == stack_after(
        start,
        (t + 1) as nat,
    ) && effects[t] == outputs_at(start, t as nat) && other_stacks[t] == stacks[t] by {
        lemma_record_matches_model(start, stacks, effects, t);
        lemma_record_matches_model(start, other_stacks, other_effects, t);
    }
    assert forall|t: int| 0 <= t < effects.len() implies #[trigger] effects[t]
        == other_effects[t] by {
        lemma_record_matches_model(start, stacks, effects, t);
        lemma_record_matches_model(start, other_stacks, other_effects, t);
    }
    assert(stacks =~= other_stacks);
    assert(effects =~= other_effects);
}

proof fn lemma_record_matches_model(
    start: Seq<ByteCode>,
    stacks: Seq<Seq<ByteCode>>,
    effects: Seq<Seq<ByteCode>>,
    t: int,
)
    requires
        records_playback(start, stacks, effects),
        0 <= t < stacks.len(),
    ensures
        stacks[t] == stack_after(start, (t + 1) as nat),
        effects[t] == outputs_at(start, t as nat),
    decreases t,
{
    let before = stack_before(start, stacks, t);
    if t > 0 {
        lemma_record_matches_model(start, stacks, effects, t - 1);
    }
    assert(before == stack_after(start, t as nat));
    assert(stacks[t] == remaining(before) && effects[t] == applied(before));
    assert(stack_after(start, (t + 1) as nat) == remaining(stack_after(start, t as nat)));
}

/// A `Cycle(n)` on top of the stack takes up `n + 1` ticks: each of them
/// applies nothing and leaves everything below untouched, and the tick
/// after them starts with the instruction below.
pub proof fn lemma_cycle_takes_its_ticks(below: Seq<ByteCode>, n: u32, k: nat)
    requires
        k <= n,
    ensures
        stack_after(below.push(ByteCode::Cycle(n)), k) == below.push(
            ByteCode::Cycle((n - k) as u32),
        ),
        outputs_at(below.push(ByteCode::Cycle(n)), k) == Seq::<ByteCode>::empty(),
        stack_after(below.push(ByteCode::Cycle(n)), (n + 1) as nat) == below,
    decreases n - k,
{
    let start = below.push(ByteCode::Cycle(n));
    lemma_cycle_counts_down(below, n, k);
    if k < n {
        lemma_cycle_takes_its_ticks(below, n, k + 1);
    } else {
        let last = below.push(ByteCode::Cycle(0));
        assert(stack_after(start, n as nat) == last);
        assert(last.drop_last() =~= below);
        assert(stack_after(start, (n + 1) as nat) == remaining(stack_after(start, n as nat)));
    }
}

proof fn lemma_cycle_counts_down(below: Seq<ByteCode>, n: u32, k: nat)
    requires
        k <= n,
    ensures
        stack_after(below.push(ByteCode::Cycle(n)), k) == below.push(
            ByteCode::Cycle((n - k) as u32),
        ),
        outputs_at(below.push(ByteCode::Cycle(n)), k) == Seq::<ByteCode>::empty(),
    decreases k,
{
    if k > 0 {
        lemma_cycle_counts_down(below, n, (k - 1) as nat);
        let earlier = below.push(ByteCode::Cycle((n - (k - 1)) as u32));
        assert(earlier.drop_last() =~= below);
    }
}

} // verus!
