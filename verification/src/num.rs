//! Small facts about numbers.

use vstd::prelude::*;

verus! {

/// The smaller of two numbers.
pub open spec fn smaller(a: int, b: int) -> int {
    if a <= b {
        a
    } else {
        b
    }
}

/// The larger of two numbers.
pub open spec fn larger(a: int, b: int) -> int {
    if a >= b {
        a
    } else {
        b
    }
}

/// `a` less `b`, but not below zero.
pub open spec fn less_by(a: int, b: int) -> int {
    if a >= b {
        a - b
    } else {
        0
    }
}

/// `n` within the range of a `u16`.
pub open spec fn fit_u16(n: int) -> int {
    smaller(n, u16::MAX as int)
}

/// `n` within the range of a `u16`.
pub fn to_u16(n: usize) -> (out: u16)
    ensures
        out == fit_u16(n as int),
{
    if n <= u16::MAX as usize {
        n as u16
    } else {
        u16::MAX
    }
}

} // verus!
