//! Decision logic of a small competition robot: what the actuators should do
//! on each control tick, from the joysticks or from a stored routine.

use vstd::prelude::*;

pub mod algor;
pub mod ascii;
pub mod bot;
pub mod button;
pub mod bytecode;
pub mod config;
pub mod controller;
pub mod drive;
pub mod smooth;
pub mod utils;

verus! {

/// Turns a vector end for end.
pub fn reverse_in_place<T: Copy>(vec: Vec<T>) -> (reversed: Vec<T>)
    ensures
        reversed@ == vec@.reverse(),
{
    let mut vec = vec;
    let ghost before = vec@;
    let len = vec.len();
    let mut i: usize = 0;
    while i < len / 2
        invariant
            len == before.len(),
            vec@.len() == len,
            i <= len / 2,
            forall|j: int| 0 <= j < i ==> vec@[j] == before[len - 1 - j],
            forall|j: int| len - i <= j < len ==> vec@[j] == before[len - 1 - j],
            forall|j: int| i <= j < len - i ==> vec@[j] == before[j],
        decreases len / 2 - i,
    {
        let front = vec[i];
        let back = vec[len - 1 - i];
        vec.set(i, back);
        vec.set(len - 1 - i, front);
        i += 1;
    }
    assert(vec@ =~= before.reverse());
    vec
}

/// Adds the elements of `slice` to the end of `vec`, in order.
pub fn append_slice<T: Copy>(vec: &mut Vec<T>, slice: &[T])
    ensures
        final(vec)@ == old(vec)@ + slice@,
{
    let mut i: usize = 0;
    while i < slice.len()
        invariant
            i <= slice.len(),
            vec@ == old(vec)@ + slice@.take(i as int),
        decreases slice.len() - i,
    {
        vec.push(slice[i]);
        i += 1;
        assert(vec@ =~= old(vec)@ + slice@.take(i as int));
    }
    assert(slice@.take(i as int) =~= slice@);
}

} // verus!
