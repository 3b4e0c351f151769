//! Notes and rests: ledger lines and the stem side of chord notes.
use vstd::prelude::*;
use crate::defs::trunc_div;
use crate::score::ANote;

verus! {

/// The ledger lines of a note whose staff-relative half-line position is
/// `half_ln` (0 = top line, 8 = bottom line of a five-line staff): the even
/// half-lines from -2 down to `half_ln` above the staff, or from 10 up to
/// `half_ln` below it.
pub open spec fn spec_ledger_lines(half_ln: int) -> Seq<i16> {
    if half_ln < 0 {
        Seq::new(((-half_ln) / 2) as nat, |k: int| (-2 * (k + 1)) as i16)
    } else if half_ln >= 10 {
        Seq::new(((half_ln - 10) / 2 + 1) as nat, |k: int| (10 + 2 * k) as i16)
    } else {
        Seq::empty()
    }
}

/// The half-line position of a note: `yd * 8 / staff_height`, truncated.
pub open spec fn spec_half_line(yd: i16, staff_height: i16) -> int {
    trunc_div(yd as int * 8, staff_height as int)
}

/// The ledger lines a note at `yd` needs on a staff of height
/// `staff_height` (see `spec_ledger_lines` and `spec_half_line`).
pub fn ledger_lines_for_note(yd: i16, staff_height: i16) -> (r: Vec<i16>)
    requires
        staff_height != 0,
        i16::MIN <= yd as int * 8 <= i16::MAX,
        !(yd as int * 8 == i16::MIN && staff_height == -1),
        -32766 <= spec_half_line(yd, staff_height) <= 32765,
    ensures
        r@ == spec_ledger_lines(spec_half_line(yd, staff_height)),
{
    let mut lines: Vec<i16> = Vec::new();
    let y8: i16 = yd * 8;
    proof {
        crate::defs::lemma_trunc_div_bounded(y8 as int, staff_height as int);
    }
    let half_ln: i16 = y8 / staff_height;
    if half_ln < 0 {
        let mut hl: i16 = -2;
        while hl >= half_ln
            invariant
                half_ln < 0,
                half_ln >= -32766,
                hl <= -2,
                hl % 2 == 0,
                hl >= half_ln - 2,
                lines@.len() == (-hl) / 2 - 1,
                forall|k: int| 0 <= k < lines@.len() ==> #[trigger] lines@[k] == -2 * (k + 1),
            decreases hl - half_ln + 2,
        {
            lines.push(hl);
            hl = hl - 2;
        }
        assert(lines@ =~= spec_ledger_lines(half_ln as int));
    } else if half_ln > 8 {
        let mut hl: i16 = 10;
        while hl <= half_ln
            invariant
                half_ln > 8,
                half_ln <= 32765,
                hl >= 10,
                hl % 2 == 0,
                hl <= half_ln + 2,
                lines@.len() == (hl - 10) / 2,
                forall|k: int| 0 <= k < lines@.len() ==> #[trigger] lines@[k] == 10 + 2 * k,
            decreases half_ln + 2 - hl,
        {
            lines.push(hl);
            hl = hl + 2;
        }
        assert(lines@ =~= spec_ledger_lines(half_ln as int));
    } else {
        assert(lines@ =~= spec_ledger_lines(half_ln as int));
    }
    lines
}

/// Ledger lines lie between the staff and the note, and every one of them
/// is drawn, from the staff outwards: for a note above the staff
/// (`half_ln < 0`) they are the even half-lines from -2 down to `half_ln`,
/// for a note below it the even half-lines from 10 down the page to
/// `half_ln`, and a note on the staff (0 to 9) needs none.
pub proof fn lemma_ledger_lines_between_staff_and_note(half_ln: int)
    requires
        -32766 <= half_ln <= 32765,
    ensures
        ({
            let s = spec_ledger_lines(half_ln);
            &&& forall|k: int| 0 <= k < s.len() ==> (#[trigger] s[k]) % 2 == 0
            &&& half_ln < 0 ==> forall|k: int| 0 <= k < s.len() ==> half_ln <= #[trigger] s[k] <= -2
            &&& half_ln >= 0 ==> forall|k: int| 0 <= k < s.len() ==> 10 <= #[trigger] s[k] <= half_ln
            &&& 0 <= half_ln <= 9 ==> s.len() == 0
            &&& half_ln < 0 ==> forall|k: int| 0 <= k < s.len() - 1 ==> #[trigger] s[k] > s[k + 1]
            &&& half_ln >= 0 ==> forall|k: int| 0 <= k < s.len() - 1 ==> #[trigger] s[k] < s[k + 1]
            &&& forall|l: int| l % 2 == 0 && (half_ln <= l <= -2 || 10 <= l <= half_ln)
                ==> #[trigger] s.contains(l as i16)
        }),
{
    let s = spec_ledger_lines(half_ln);
    assert forall|l: int| l % 2 == 0 && (half_ln <= l <= -2 || 10 <= l <= half_ln)
        implies #[trigger] s.contains(l as i16) by {
        if half_ln <= l <= -2 {
            let k = (-l) / 2 - 1;
            assert(0 <= k < s.len());
            assert(s[k] == l as i16);
        } else {
            let k = (l - 10) / 2;
            assert(0 <= k < s.len());
            assert(s[k] == l as i16);
        }
    }
}

/// A note of the same staff and voice that is not a rest and has a stem.
pub open spec fn stem_sibling(n: ANote, s: ANote) -> bool {
    s.header.staffn == n.header.staffn && s.voice == n.voice && !s.rest && s.ystem != s.yd
}

/// Stem direction of a chord note: that of the first stemmed note of its
/// staff and voice in the list (down when its stem end is below its head),
/// else the note's own.
pub open spec fn spec_stem_down(n: ANote, list: Seq<ANote>, i: int) -> bool
    decreases list.len() - i,
{
    if i < 0 || i >= list.len() {
        n.ystem > n.yd
    } else if stem_sibling(n, list[i]) {
        list[i].ystem > list[i].yd
    } else {
        spec_stem_down(n, list, i + 1)
    }
}

/// Whether a chord note's stem goes down (see `spec_stem_down`).
pub fn find_stem_down(anote: &ANote, anote_list: &[ANote]) -> (r: bool)
    ensures
        r == spec_stem_down(*anote, anote_list@, 0),
{
    let mut i: usize = 0;
    while i < anote_list.len()
        invariant
            i <= anote_list@.len(),
            spec_stem_down(*anote, anote_list@, 0) == spec_stem_down(*anote, anote_list@, i as int),
        decreases anote_list.len() - i,
    {
        let s = &anote_list[i];
        if s.header.staffn == anote.header.staffn && s.voice == anote.voice && !s.rest && s.ystem != s.yd {
            return s.ystem > s.yd;
        }
        i = i + 1;
    }
    anote.ystem > anote.yd
}

/// A chord note is left of its stem: the stem goes down and some note of
/// the same staff and voice (not a rest) sits on the other side of the stem.
pub fn chord_note_to_left(anote: &ANote, anote_list: &[ANote]) -> (r: bool)
    ensures
        r == (spec_stem_down(*anote, anote_list@, 0) && exists|j: int| 0 <= j < anote_list@.len() && {
            let s = #[trigger] anote_list@[j];
            s.header.staffn == anote.header.staffn && s.voice == anote.voice && !s.rest && s.other_stem_side
        }),
{
    let stem_down = find_stem_down(anote, anote_list);
    if !stem_down {
        return false;
    }
    let mut i: usize = 0;
    while i < anote_list.len()
        invariant
            i <= anote_list@.len(),
            spec_stem_down(*anote, anote_list@, 0),
            forall|j: int| 0 <= j < i ==> {
                let s = #[trigger] anote_list@[j];
                !(s.header.staffn == anote.header.staffn && s.voice == anote.voice && !s.rest && s.other_stem_side)
            },
        decreases anote_list.len() - i,
    {
        let s = &anote_list[i];
        if s.header.staffn == anote.header.staffn && s.voice == anote.voice && !s.rest && s.other_stem_side {
            assert(anote_list@[i as int] == *s);
            return true;
        }
        i = i + 1;
    }
    false
}

// ----------------------------------------------------------------------------
// Note modifiers
// ----------------------------------------------------------------------------

/// SMuFL code points of note modifier glyphs.
pub const FERMATA_ABOVE: u32 = 0xE4C0;
pub const FERMATA_BELOW: u32 = 0xE4C1;
pub const ACCENT_ABOVE: u32 = 0xE4A0;
pub const ACCENT_BELOW: u32 = 0xE4A1;
pub const MARCATO_ABOVE: u32 = 0xE4AC;
pub const MARCATO_BELOW: u32 = 0xE4AD;
pub const STACCATO_ABOVE: u32 = 0xE4A2;
pub const STACCATO_BELOW: u32 = 0xE4A3;
pub const STACCATISSIMO_ABOVE: u32 = 0xE4A8;
pub const STACCATISSIMO_BELOW: u32 = 0xE4A9;
pub const TENUTO_ABOVE: u32 = 0xE4A4;
pub const TENUTO_BELOW: u32 = 0xE4A5;
pub const MARCATO_STACCATO_ABOVE: u32 = 0xE4AE;
pub const MARCATO_STACCATO_BELOW: u32 = 0xE4AF;
pub const TRILL: u32 = 0xE566;
pub const MORDENT: u32 = 0xE56C;
pub const INV_MORDENT: u32 = 0xE56D;
pub const TURN: u32 = 0xE567;
pub const LONG_INV_MORDENT: u32 = 0xE56E;
pub const UPBOW: u32 = 0xE612;
pub const DOWNBOW: u32 = 0xE610;
pub const PLUS: u32 = 0xE633;
pub const CIRCLE: u32 = 0xE614;

/// Note modifier codes.
pub const MOD_FERMATA: u8 = 10;
pub const MOD_TRILL: u8 = 11;
pub const MOD_ACCENT: u8 = 12;
pub const MOD_HEAVYACCENT: u8 = 13;
pub const MOD_STACCATO: u8 = 14;
pub const MOD_WEDGE: u8 = 15;
pub const MOD_TENUTO: u8 = 16;
pub const MOD_MORDENT: u8 = 17;
pub const MOD_INV_MORDENT: u8 = 18;
pub const MOD_TURN: u8 = 19;
pub const MOD_PLUS: u8 = 20;
pub const MOD_CIRCLE: u8 = 21;
pub const MOD_UPBOW: u8 = 22;
pub const MOD_DOWNBOW: u8 = 23;
pub const MOD_TREMOLO1: u8 = 24;
pub const MOD_TREMOLO6: u8 = 29;
pub const MOD_HEAVYACC_STACC: u8 = 30;
pub const MOD_LONG_INVMORDENT: u8 = 31;

/// Size of the circle modifier, in tenths of a percent of the note size.
pub const CIRCLE_SIZE_PERMILLE: u32 = 1500;

/// Glyph and placement of a note modifier: (glyph, x offset, y offset, size
/// in tenths of a percent), offsets in eighths of a space. Modifiers with
/// an above and a below form use the one for `above`; the size is 100%
/// (75% when `small`), the circle 150% (112.5%). Fingerings, tremolos and
/// unknown codes have none.
pub open spec fn spec_modnr_info(code: u8, above: bool, small: bool) -> Option<(u32, i16, i16, u32)> {
    let size: u32 = if small { 750 } else { 1000 };
    let ya = |n: i16| if above { n } else { 0i16 };
    if code == MOD_FERMATA { Some((if above { FERMATA_ABOVE } else { FERMATA_BELOW }, -5i16, if above { 4i16 } else { -4i16 }, size)) }
    else if code == MOD_TRILL { Some((TRILL, 0, ya(4), size)) }
    else if code == MOD_ACCENT { Some((if above { ACCENT_ABOVE } else { ACCENT_BELOW }, 0, ya(3), size)) }
    else if code == MOD_HEAVYACCENT { Some((if above { MARCATO_ABOVE } else { MARCATO_BELOW }, 0, ya(5), size)) }
    else if code == MOD_STACCATO { Some((if above { STACCATO_ABOVE } else { STACCATO_BELOW }, 4, 0, size)) }
    else if code == MOD_WEDGE { Some((if above { STACCATISSIMO_ABOVE } else { STACCATISSIMO_BELOW }, 2, ya(2), size)) }
    else if code == MOD_TENUTO { Some((if above { TENUTO_ABOVE } else { TENUTO_BELOW }, 0, 0, size)) }
    else if code == MOD_MORDENT { Some((MORDENT, -4i16, ya(4), size)) }
    else if code == MOD_INV_MORDENT { Some((INV_MORDENT, -4i16, ya(4), size)) }
    else if code == MOD_TURN { Some((TURN, -4i16, 0, size)) }
    else if code == MOD_PLUS { Some((PLUS, 0, 0, size)) }
    else if code == MOD_CIRCLE { Some((CIRCLE, 2, 0, if small { 1125u32 } else { CIRCLE_SIZE_PERMILLE })) }
    else if code == MOD_UPBOW { Some((UPBOW, 1, ya(6), size)) }
    else if code == MOD_DOWNBOW { Some((DOWNBOW, 0, ya(5), size)) }
    else if code == MOD_HEAVYACC_STACC { Some((if above { MARCATO_STACCATO_ABOVE } else { MARCATO_STACCATO_BELOW }, 0, ya(5), size)) }
    else if code == MOD_LONG_INVMORDENT { Some((LONG_INV_MORDENT, -6i16, ya(4), size)) }
    else { None }
}

/// Glyph and placement of a note modifier (see `spec_modnr_info`).
pub fn get_modnr_info(code: u8, above: bool, small: bool) -> (r: Option<(u32, i16, i16, u32)>)
    ensures
        r == spec_modnr_info(code, above, small),
{
    let size: u32 = if small { 750 } else { 1000 };
    match code {
        0..=5 => None,
        MOD_FERMATA => {
            let glyph = if above { FERMATA_ABOVE } else { FERMATA_BELOW };
            Some((glyph, -5, if above { 4 } else { -4 }, size))
        },
        MOD_TRILL => Some((TRILL, 0, if above { 4 } else { 0 }, size)),
        MOD_ACCENT => {
            let glyph = if above { ACCENT_ABOVE } else { ACCENT_BELOW };
            Some((glyph, 0, if above { 3 } else { 0 }, size))
        },
        MOD_HEAVYACCENT => {
            let glyph = if above { MARCATO_ABOVE } else { MARCATO_BELOW };
            Some((glyph, 0, if above { 5 } else { 0 }, size))
        },
        MOD_STACCATO => {
            let glyph = if above { STACCATO_ABOVE } else { STACCATO_BELOW };
            Some((glyph, 4, 0, size))
        },
        MOD_WEDGE => {
            let glyph = if above { STACCATISSIMO_ABOVE } else { STACCATISSIMO_BELOW };
            Some((glyph, 2, if above { 2 } else { 0 }, size))
        },
        MOD_TENUTO => {
            let glyph = if above { TENUTO_ABOVE } else { TENUTO_BELOW };
            Some((glyph, 0, 0, size))
        },
        MOD_MORDENT => Some((MORDENT, -4, if above { 4 } else { 0 }, size)),
        MOD_INV_MORDENT => Some((INV_MORDENT, -4, if above { 4 } else { 0 }, size)),
        MOD_TURN => Some((TURN, -4, 0, size)),
        MOD_PLUS => Some((PLUS, 0, 0, size)),
        MOD_CIRCLE => {
            let circle_size: u32 = if small { CIRCLE_SIZE_PERMILLE * 3 / 4 } else { CIRCLE_SIZE_PERMILLE };
            Some((CIRCLE, 2, 0, circle_size))
        },
        MOD_UPBOW => Some((UPBOW, 1, if above { 6 } else { 0 }, size)),
        MOD_DOWNBOW => Some((DOWNBOW, 0, if above { 5 } else { 0 }, size)),
        MOD_TREMOLO1..=MOD_TREMOLO6 => None,
        MOD_HEAVYACC_STACC => {
            let glyph = if above { MARCATO_STACCATO_ABOVE } else { MARCATO_STACCATO_BELOW };
            Some((glyph, 0, if above { 5 } else { 0 }, size))
        },
        MOD_LONG_INVMORDENT => Some((LONG_INV_MORDENT, -6, if above { 4 } else { 0 }, size)),
        _ => None,
    }
}

} // verus!
