//! Routines written as one drive command per tick.

use vstd::prelude::*;
use crate::button::ButtonArg;
use crate::drive::DriveArg;

verus! {

/// A routine: the command to give at each tick, counted from zero.
pub struct Algor(Vec<DriveArg>);

/// That many copies of `item` in a row.
pub open spec fn repeated<T>(item: T, count: nat) -> Seq<T> {
    Seq::new(count, |i: int| item)
}

/// What a list of items with repeat counts is short for: every item laid
/// out as many times as its count says, in the order written.
pub open spec fn expanded<T>(entries: Seq<(T, usize)>) -> Seq<T>
    decreases entries.len(),
{
    if entries.len() == 0 {
        Seq::empty()
    } else {
        expanded(entries.drop_last()) + repeated(entries.last().0, entries.last().1 as nat)
    }
}

/// Lays out a list of items with repeat counts.
pub fn expand<T: Copy>(entries: &[(T, usize)]) -> (list: Vec<T>)
    ensures
        list@ == expanded(entries@),
{
    let mut list: Vec<T> = Vec::new();
    let mut idx: usize = 0;
    while idx < entries.len()
        invariant
            idx <= entries.len(),
            list@ == expanded(entries@.take(idx as int)),
        decreases entries.len() - idx,
    {
        let (item, count) = entries[idx];
        let ghost done = list@;
        let mut i: usize = 0;
        while i < count
            invariant
                i <= count,
                list@ == done + repeated(item, i as nat),
            decreases count - i,
        {
            list.push(item);
            i += 1;
            assert(list@ =~= done + repeated(item, i as nat));
        }
        proof {
            let next = entries@.take(idx + 1);
            assert(next.drop_last() =~= entries@.take(idx as int));
            assert(next.last() == entries@[idx as int]);
        }
        idx += 1;
    }
    assert(entries@.take(idx as int) =~= entries@);
    list
}

impl View for Algor {
    type V = Seq<DriveArg>;

    closed spec fn view(&self) -> Seq<DriveArg> {
        self.0@
    }
}

impl Algor {
    /// Lays out a routine written as commands with the number of ticks each
    /// one lasts.
    pub fn generate(entries: &[(DriveArg, usize)]) -> (algor: Self)
        ensures
            algor@ == expanded(entries@),
    {
        Algor(expand(entries))
    }

    /// The routine run before a match: thirty ticks straight ahead at
    /// reduced speed.
    pub fn autonomous() -> (algor: Self)
        ensures
            algor@ == repeated(DriveArg::Forward(ButtonArg::Null, true), 30),
    {
        let mut entries: Vec<(DriveArg, usize)> = Vec::new();
        entries.push((DriveArg::Forward(ButtonArg::Null, true), 30));
        proof {
            assert(entries@.drop_last() =~= Seq::<(DriveArg, usize)>::empty());
            assert(expanded(entries@.drop_last()) =~= Seq::<DriveArg>::empty());
            assert(expanded(entries@) =~= repeated(DriveArg::Forward(ButtonArg::Null, true), 30));
        }
        Self::generate(entries.as_slice())
    }

    /// The command for the given tick, or nothing once the routine is over.
    pub fn get(&self, tick: &u128) -> (arg: Option<DriveArg>)
        ensures
            arg == if *tick < self@.len() {
                Some(self@[*tick as int].normalized())
            } else {
                None
            },
    {
        if self.0.len() as u128 <= *tick {
            None
        } else {
            let tick = *tick as usize;
            Some(self.0[tick].duplicate())
        }
    }
}

} // verus!
