//! A pair of 32-bit unsigned integers that crosses the boundary by value.

use vstd::prelude::*;
use vstd::std_specs::convert::FromSpecImpl;

verus! {

/// `v + 1`, wrapped around to `0` at the top of the 32-bit unsigned range.
pub open spec fn wrapping_succ(v: u32) -> u32 {
    if v == u32::MAX {
        0u32
    } else {
        (v + 1) as u32
    }
}

/// `v - 1`, wrapped around to `u32::MAX` at the bottom of the 32-bit unsigned
/// range.
pub open spec fn wrapping_pred(v: u32) -> u32 {
    if v == 0 {
        u32::MAX
    } else {
        (v - 1) as u32
    }
}

/// What [`flip_things_around_rust`] makes of the pair `tup`: the second
/// component plus one, then the first component minus one, both wrapping.
pub open spec fn flipped(tup: (u32, u32)) -> (u32, u32) {
    (wrapping_succ(tup.1), wrapping_pred(tup.0))
}

/// Swaps the two components of a pair, adding one to the component that moves
/// to the front and taking one from the component that moves to the back.
///
/// Neither step is guarded: `u32::MAX + 1` is `0` and `0 - 1` is `u32::MAX`.
pub fn flip_things_around_rust(tup: (u32, u32)) -> (out: (u32, u32))
    ensures
        out == flipped(tup),
        tup.1 < u32::MAX ==> out.0 == tup.1 + 1,
        tup.0 > 0 ==> out.1 == tup.0 - 1,
{
    let (a, b) = tup;
    (b.wrapping_add(1), a.wrapping_sub(1))
}

/// Two `u32`s with a fixed field order, the by-value form of a pair at the
/// boundary.
#[derive(Clone, Copy, Debug, PartialEq, Eq, Structural)]
pub struct Tuple {
    pub x: u32,
    pub y: u32,
}

impl View for Tuple {
    type V = (u32, u32);

    open spec fn view(&self) -> (u32, u32) {
        (self.x, self.y)
    }
}

impl From<(u32, u32)> for Tuple {
    fn from(tup: (u32, u32)) -> (out: Tuple)
        ensures
            out.x == tup.0,
            out.y == tup.1,
    {
        Tuple { x: tup.0, y: tup.1 }
    }
}

impl FromSpecImpl<(u32, u32)> for Tuple {
    open spec fn obeys_from_spec() -> bool {
        true
    }

    open spec fn from_spec(tup: (u32, u32)) -> Tuple {
        Tuple { x: tup.0, y: tup.1 }
    }
}

impl From<Tuple> for (u32, u32) {
    fn from(tup: Tuple) -> (out: (u32, u32))
        ensures
            out == tup@,
    {
        (tup.x, tup.y)
    }
}

impl FromSpecImpl<Tuple> for (u32, u32) {
    open spec fn obeys_from_spec() -> bool {
        true
    }

    open spec fn from_spec(tup: Tuple) -> (u32, u32) {
        (tup.x, tup.y)
    }
}

/// [`flip_things_around_rust`] on the fixed-layout form of the pair.
pub fn flip_things_around(tup: Tuple) -> (out: Tuple)
    ensures
        out@ == flipped(tup@),
{
    let pair: (u32, u32) = <(u32, u32)>::from(tup);
    Tuple::from(flip_things_around_rust(pair))
}

} // verus!
