//! The auxiliary button that may ride along with a drive command.

use vstd::prelude::*;

verus! {

/// Which auxiliary mechanism, if any, is requested together with a drive
/// command.
#[derive(Debug, Clone, Copy, PartialEq, Eq, Structural)]
pub enum ButtonArg {
    /// No auxiliary request.
    Null,
    /// The `A` button is held.
    A,
}

impl ButtonArg {
    /// The button's name.
    pub open spec fn name(self) -> Seq<char> {
        match self {
            ButtonArg::Null => "Null"@,
            ButtonArg::A => "A"@,
        }
    }

    /// The button's name.
    pub fn to_str(&self) -> (name: &'static str)
        ensures
            name@ == self.name(),
    {
        match self {
            ButtonArg::Null => "Null",
            ButtonArg::A => "A",
        }
    }

    /// A copy of the tag.
    pub fn duplicate(&self) -> (copy: Self)
        ensures
            copy == *self,
    {
        *self
    }
}

} // verus!
