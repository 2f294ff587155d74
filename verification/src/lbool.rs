//! The tri-valued boolean a SAT engine reports for a literal, and its
//! fixed encoding as a small integer for a foreign caller.

use vstd::prelude::*;

verus! {

/// A literal's value: true, false, or not (yet) assigned.
#[derive(PartialEq, Eq, Structural, Clone, Copy, Debug)]
pub enum Lbool {
    True,
    False,
    Undef,
}

/// Encodes a tri-valued boolean as the small integer a foreign caller
/// expects: 0 for true, 1 for false, 2 for undefined.
pub fn int_of_lbool(r: Lbool) -> (i: isize)
    ensures
        i == match r {
            Lbool::True => 0isize,
            Lbool::False => 1isize,
            Lbool::Undef => 2isize,
        },
{
    if r == Lbool::True {
        0
    } else if r == Lbool::False {
        1
    } else {
        2
    }
}

} // verus!
