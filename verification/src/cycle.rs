//! Walking round a list: behind the last entry comes the first.
use vstd::prelude::*;

verus! {

/// The entry behind entry `i` of `len`, round from the last to the first.
pub open spec fn next(len: int, i: int) -> int {
    if i + 1 >= len { 0 } else { i + 1 }
}

/// The entry before entry `i` of `len`, round from the first to the last.
pub open spec fn prev(len: int, i: int) -> int {
    if i <= 0 { len - 1 } else { i - 1 }
}

/// The entry `delta` steps behind entry `i` of `len`, round at the ends.
pub open spec fn moved(len: int, i: int, delta: int) -> int {
    (i + delta) % len
}

/// The entry behind entry `i` of `len`.
pub fn next_ix(len: usize, i: usize) -> (r: usize)
    requires
        i < len,
    ensures
        r == next(len as int, i as int),
        r < len,
{
    if i + 1 == len { 0 } else { i + 1 }
}

/// The entry before entry `i` of `len`.
pub fn prev_ix(len: usize, i: usize) -> (r: usize)
    requires
        i < len,
    ensures
        r == prev(len as int, i as int),
        r < len,
{
    if i == 0 { len - 1 } else { i - 1 }
}

/// The entry one step behind entry `i` of `len`, or one step before it, round at the ends. An
/// entry beyond the last counts round, too.
pub fn step(len: usize, i: usize, forward: bool) -> (r: usize)
    requires
        len > 0,
        i < usize::MAX,
    ensures
        r == moved(len as int, i as int, if forward { 1 } else { -1 }),
        r < len,
{
    if forward {
        (i + 1) % len
    } else if i == 0 {
        proof {
            steps_are_next_and_prev(len as int, 0);
        }
        len - 1
    } else {
        (i - 1) % len
    }
}

/// The entry before the one behind an entry is the entry itself, and the one behind the one
/// before it is, too.
pub proof fn next_and_prev_are_inverse(len: int, i: int)
    requires
        0 <= i < len,
    ensures
        prev(len, next(len, i)) == i,
        next(len, prev(len, i)) == i,
        0 <= next(len, i) < len,
        0 <= prev(len, i) < len,
{
}

/// One step forward leads to the next entry, one step back to the previous one.
pub proof fn steps_are_next_and_prev(len: int, i: int)
    requires
        0 <= i < len,
    ensures
        moved(len, i, 1) == next(len, i),
        moved(len, i, -1) == prev(len, i),
{
    if i + 1 == len {
        assert((i + 1) % len == 0) by (nonlinear_arith)
            requires
                i + 1 == len,
                len > 0,
        ;
    } else {
        assert((i + 1) % len == i + 1) by (nonlinear_arith)
            requires
                0 <= i + 1 < len,
        ;
    }
    if i == 0 {
        assert((i - 1) % len == len - 1) by (nonlinear_arith)
            requires
                i == 0,
                len > 0,
        ;
    } else {
        assert((i - 1) % len == i - 1) by (nonlinear_arith)
            requires
                0 <= i - 1 < len,
        ;
    }
}

} // verus!
