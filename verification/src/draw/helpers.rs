//! Helpers shared by the drawing code.
use vstd::prelude::*;
use crate::score::InterpretedScore;

verus! {

/// The number of staves of a score: the staff count of the first Staff
/// object of the walk with a subobject list, or 0 when there is none.
pub fn count_staves(score: &InterpretedScore) -> (r: usize)
    ensures
        match score.staff_count_spec() {
            Some(n) => r == n,
            None => r == 0,
        },
{
    match score.staff_count() {
        Some(n) => n,
        None => 0,
    }
}

} // verus!
