//! Smoothing of the stick's direction over time, so that passing through a
//! diagonal eases the robot round instead of jerking it.

use vstd::prelude::*;
use crate::button::ButtonArg;
use crate::config::TICKS_FOR_45;
use crate::controller::StickState;
use crate::drive::DriveArg;

verus! {

/// What one stick has been doing lately.
#[derive(Debug, Clone, Copy, PartialEq, Eq, Structural)]
pub struct Smooth {
    /// The direction held just before the current one.
    pub modifier: StickState,
    /// The current direction.
    pub action: StickState,
    /// For how many ticks in a row the current direction has been seen since
    /// it was first seen.
    pub ticks: u16,
}

impl Smooth {
    /// The bookkeeping after one more reading of `state`.
    ///
    /// The same direction again counts one more tick. A new direction starts
    /// counting from zero and the direction it replaces is remembered.
    pub open spec fn advanced(self, state: StickState) -> Self {
        if state == self.action {
            Smooth { modifier: self.modifier, action: self.action, ticks: (self.ticks + 1) as u16 }
        } else {
            Smooth { modifier: self.action, action: state, ticks: 0 }
        }
    }

    /// The bookkeeping after `n` readings in a row that all gave `state`.
    pub open spec fn held(self, state: StickState, n: nat) -> Self
        decreases n,
    {
        if n == 0 {
            self
        } else {
            self.held(state, (n - 1) as nat).advanced(state)
        }
    }

    /// Whether the current direction is still young enough for a corrective
    /// turn.
    pub open spec fn easing(self) -> bool {
        self.ticks < TICKS_FOR_45
    }

    /// The command that the stick's recent history asks for.
    ///
    /// A neutral stick stops, and a stick pushed straight east or west turns
    /// at once.
    ///
    /// A stick pointing north drives forward, except that for the length of
    /// the easing window after it has swung there from a northern diagonal
    /// it turns away from that diagonal. South works the same way, driving
    /// backward, with the turns mirrored.
    ///
    /// A stick on a diagonal drives forward, or backward for a southern
    /// one, except that for the length of the easing window after it has
    /// swung there from the cardinal direction next to it, north or south,
    /// it turns towards the diagonal's side. A diagonal on which the
    /// vertical axis dominates never turns: it drives straight at once.
    pub open spec fn resolved(self, button: ButtonArg) -> DriveArg {
        match self.action {
            StickState::Neutral => DriveArg::Stop(button, false),
            StickState::East => DriveArg::Right(button, false),
            StickState::West => DriveArg::Left(button, false),
            StickState::North => if self.modifier is NorthEast && self.easing() {
                DriveArg::Left(button, false)
            } else if self.modifier is NorthWest && self.easing() {
                DriveArg::Right(button, false)
            } else {
                DriveArg::Forward(button, false)
            },
            StickState::South => if self.modifier is SouthEast && self.easing() {
                DriveArg::Right(button, false)
            } else if self.modifier is SouthWest && self.easing() {
                DriveArg::Left(button, false)
            } else {
                DriveArg::Backward(button, false)
            },
            StickState::NorthEast(straight) => if !straight && self.modifier is North
                && self.easing() {
                DriveArg::Right(button, false)
            } else {
                DriveArg::Forward(button, false)
            },
            StickState::NorthWest(straight) => if !straight && self.modifier is North
                && self.easing() {
                DriveArg::Left(button, false)
            } else {
                DriveArg::Forward(button, false)
            },
            StickState::SouthEast(straight) => if !straight && self.modifier is South
                && self.easing() {
                DriveArg::Right(button, false)
            } else {
                DriveArg::Backward(button, false)
            },
            StickState::SouthWest(straight) => if !straight && self.modifier is South
                && self.easing() {
                DriveArg::Left(button, false)
            } else {
                DriveArg::Backward(button, false)
            },
        }
    }

    /// The bookkeeping of a stick that has not moved yet.
    pub fn new() -> (fresh: Self)
        ensures
            fresh == (Smooth { modifier: StickState::Neutral, action: StickState::Neutral, ticks: 0 }),
    {
        Smooth { action: StickState::Neutral, modifier: StickState::Neutral, ticks: 0 }
    }

    /// Switches to `state`, remembering the direction held until now.
    pub fn reset(&mut self, state: StickState)
        ensures
            *final(self) == (Smooth { modifier: old(self).action, action: state, ticks: 0 }),
    {
        self.modifier = self.action;
        self.action = state;
        self.ticks = 0;
    }

    /// Takes note of this tick's reading.
    pub fn advance(&mut self, state: StickState)
        requires
            state == old(self).action ==> old(self).ticks < u16::MAX,
        ensures
            *final(self) == old(self).advanced(state),
    {
        if state == self.action {
            self.ticks += 1;
        } else {
            self.reset(state);
        }
    }

    /// The command that the stick's recent history asks for, carrying
    /// `button`.
    pub fn execute(&self, button: ButtonArg) -> (arg: DriveArg)
        ensures
            arg == self.resolved(button),
    {
        let easing = self.ticks < TICKS_FOR_45;
        match self.action {
            StickState::Neutral => DriveArg::Stop(button, false),
            StickState::East => DriveArg::Right(button, false),
            StickState::West => DriveArg::Left(button, false),
            StickState::North => match self.modifier {
                StickState::NorthEast(_) if easing => DriveArg::Left(button, false),
                StickState::NorthWest(_) if easing => DriveArg::Right(button, false),
                _ => DriveArg::Forward(button, false),
            },
            StickState::South => match self.modifier {
                StickState::SouthEast(_) if easing => DriveArg::Right(button, false),
                StickState::SouthWest(_) if easing => DriveArg::Left(button, false),
                _ => DriveArg::Backward(button, false),
            },
            StickState::NorthEast(straight) => match self.modifier {
                _ if straight => DriveArg::Forward(button, false),
                StickState::North if easing => DriveArg::Right(button, false),
                _ => DriveArg::Forward(button, false),
            },
            StickState::NorthWest(straight) => match self.modifier {
                _ if straight => DriveArg::Forward(button, false),
                StickState::North if easing => DriveArg::Left(button, false),
                _ => DriveArg::Forward(button, false),
            },
            StickState::SouthEast(straight) => match self.modifier {
                _ if straight => DriveArg::Backward(button, false),
                StickState::South if easing => DriveArg::Right(button, false),
                _ => DriveArg::Backward(button, false),
            },
            StickState::SouthWest(straight) => match self.modifier {
                _ if straight => DriveArg::Backward(button, false),
                StickState::South if easing => DriveArg::Left(button, false),
                _ => DriveArg::Backward(button, false),
            },
        }
    }

    /// Takes note of this tick's reading and gives the command that follows
    /// from it.
    pub fn gen_arg(&mut self, state: StickState, button: ButtonArg) -> (arg: DriveArg)
        requires
            state == old(self).action ==> old(self).ticks < u16::MAX,
        ensures
            *final(self) == old(self).advanced(state),
            arg == old(self).advanced(state).resolved(button),
    {
        self.advance(state);
        self.execute(button)
    }
}

/// While the stick keeps its direction, every reading adds exactly one tick
/// to the count and changes nothing else.
pub proof fn lemma_dwell_counts_up(smooth: Smooth, n: nat)
    requires
        smooth.ticks + n <= u16::MAX,
    ensures
        smooth.held(smooth.action, n).ticks == smooth.ticks + n,
        smooth.held(smooth.action, n).action == smooth.action,
        smooth.held(smooth.action, n).modifier == smooth.modifier,
        n > 0 ==> smooth.held(smooth.action, n).ticks == smooth.held(
            smooth.action,
            (n - 1) as nat,
        ).ticks + 1,
    decreases n,
{
    if n > 0 {
        lemma_dwell_counts_up(smooth, (n - 1) as nat);
    }
}

/// A reading that differs from the current direction starts the count again
/// at zero and moves the current direction into `modifier`.
pub proof fn lemma_change_restarts_dwell(smooth: Smooth, state: StickState)
    requires
        state != smooth.action,
    ensures
        smooth.advanced(state).ticks == 0,
        smooth.advanced(state).modifier == smooth.action,
        smooth.advanced(state).action == state,
{
}

/// A diagonal on which the vertical axis dominates drives straight,
/// whatever came before it and however long it has been held.
pub proof fn lemma_straight_diagonal_never_turns(smooth: Smooth, button: ButtonArg)
    ensures
        smooth.action == StickState::NorthEast(true) || smooth.action == StickState::NorthWest(true)
            ==> smooth.resolved(button) == DriveArg::Forward(button, false),
        smooth.action == StickState::SouthEast(true) || smooth.action == StickState::SouthWest(true)
            ==> smooth.resolved(button) == DriveArg::Backward(button, false),
{
}

/// A stick that swings from north to a north-eastern diagonal on which the
/// horizontal axis dominates turns right for exactly the easing window and
/// drives forward from then on.
pub proof fn lemma_easing_lasts_the_window(smooth: Smooth, n: nat, button: ButtonArg)
    requires
        smooth.action == StickState::North,
        n <= u16::MAX,
    ensures
        smooth.advanced(StickState::NorthEast(false)).held(
            StickState::NorthEast(false),
            n,
        ).resolved(button) == if n < TICKS_FOR_45 {
            DriveArg::Right(button, false)
        } else {
            DriveArg::Forward(button, false)
        },
{
    lemma_dwell_counts_up(smooth.advanced(StickState::NorthEast(false)), n);
}

} // verus!
