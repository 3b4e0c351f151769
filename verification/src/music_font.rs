//! Music font metrics for the current music font (Bravura/SMuFL).
use vstd::prelude::*;
use crate::basic_types::Ddist;
use crate::defs::trunc_div;

verus! {

/// Stem space width of the Bravura font, as a percentage of the interline space.
pub const STEM_SPACE_WIDTH_PCT: i32 = 118;

/// Distance from the left edge of a notehead to where an up-stem attaches:
/// `118 * ln_space / 100`, truncated, converted to a drawing distance.
pub fn stem_space_width_ddist(ln_space: Ddist) -> (r: Ddist)
    ensures
        r == trunc_div(118 * ln_space, 100) as i16,
{
    (118 * ln_space as i32 / 100) as Ddist
}

} // verus!
