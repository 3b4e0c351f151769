//! Beam slope: the stem ends of a beamed group of notes, set along a straight
//! beam whose slope is a percentage of the slope between the outer stems.
//!
//! The stem ends are computed exactly in rational arithmetic and rounded to
//! the nearest integer, halves away from zero.
use vstd::prelude::*;
use crate::basic_types::Ddist;

verus! {

/// A note of a beamed group.
#[derive(Debug, Clone, Copy, PartialEq, Eq)]
pub struct BeamNoteInfo {
    /// Horizontal position of the note's sync.
    pub sync_xd: Ddist,
    /// Vertical position of the note head.
    pub note_yd: Ddist,
    /// Vertical position of the stem end.
    pub note_ystem: Ddist,
    /// Caller-defined identifier of the sync.
    pub sync_id: u16,
}

/// Index of the last note with the largest stem end among the first `n`.
pub open spec fn last_max_ystem(s: Seq<BeamNoteInfo>, n: int) -> int
    decreases n,
{
    if n <= 1 {
        0
    } else {
        let k = last_max_ystem(s, n - 1);
        if s[n - 1].note_ystem >= s[k].note_ystem { n - 1 } else { k }
    }
}

/// Index of the first note with the smallest stem end among the first `n`.
pub open spec fn first_min_ystem(s: Seq<BeamNoteInfo>, n: int) -> int
    decreases n,
{
    if n <= 1 {
        0
    } else {
        let k = first_min_ystem(s, n - 1);
        if s[n - 1].note_ystem < s[k].note_ystem { n - 1 } else { k }
    }
}

/// The base note of a group: with stems down (the first stem end below its
/// head) the last note with the lowest stem end, else the first note with
/// the highest one.
pub open spec fn beam_base_index(s: Seq<BeamNoteInfo>) -> int {
    if s[0].note_ystem > s[0].note_yd {
        last_max_ystem(s, s.len() as int)
    } else {
        first_min_ystem(s, s.len() as int)
    }
}

/// `n / d` for `d > 0`, rounded to the nearest integer, halves away from zero.
pub open spec fn round_div(n: int, d: int) -> int {
    if n >= 0 {
        (2 * n + d) / (2 * d)
    } else {
        -((2 * (-n) + d) / (2 * d))
    }
}

/// `v` saturated to the `i16` range.
pub open spec fn sat_i16(v: int) -> i16 {
    if v < -32768 { -32768i16 } else if v > 32767 { 32767i16 } else { v as i16 }
}

/// The new stem end of note `i`: on the line through the base note's stem
/// end whose slope is `rel` percent of the slope between the outer stems,
/// that is `base + end_diff * rel * (base_xd - xd_i) / (100 * length)`,
/// rounded and saturated to 16 bits.
pub open spec fn beam_stem_end(s: Seq<BeamNoteInfo>, rel: int, i: int) -> i16 {
    let n = s.len() as int;
    let b = beam_base_index(s);
    let first_xd = s[0].sync_xd as int;
    let length = s[n - 1].sync_xd as int - first_xd;
    let end_diff = s[0].note_ystem as int - s[n - 1].note_ystem as int;
    let num = s[b].note_ystem as int * 100 * length
        + end_diff * rel * (s[b].sync_xd as int - s[i].sync_xd as int);
    let den = 100 * length;
    sat_i16(if den > 0 { round_div(num, den) } else { round_div(-num, -den) })
}

/// The differences of the group's positions fit 16 bits, as the computation
/// requires: between the outer stem ends, between the outer syncs, and from
/// the first sync to the base note's and to every note's sync.
pub open spec fn beam_fits(s: Seq<BeamNoteInfo>) -> bool {
    let n = s.len() as int;
    let first_xd = s[0].sync_xd as int;
    let length = s[n - 1].sync_xd as int - first_xd;
    &&& i16::MIN <= s[0].note_ystem as int - s[n - 1].note_ystem as int <= i16::MAX
    &&& i16::MIN <= length <= i16::MAX
    &&& length != 0 ==> i16::MIN <= first_xd - s[beam_base_index(s)].sync_xd as int <= i16::MAX
    &&& length != 0 ==> forall|i: int| 0 <= i < n ==> i16::MIN <= #[trigger] s[i].sync_xd as int - first_xd <= i16::MAX
}

proof fn lemma_last_max_ystem(s: Seq<BeamNoteInfo>, n: int)
    requires
        1 <= n <= s.len(),
    ensures
        0 <= last_max_ystem(s, n) < n,
    decreases n,
{
    if n > 1 {
        lemma_last_max_ystem(s, n - 1);
    }
}

proof fn lemma_first_min_ystem(s: Seq<BeamNoteInfo>, n: int)
    requires
        1 <= n <= s.len(),
    ensures
        0 <= first_min_ystem(s, n) < n,
    decreases n,
{
    if n > 1 {
        lemma_first_min_ystem(s, n - 1);
    }
}

proof fn lemma_last_max_ystem_extreme(s: Seq<BeamNoteInfo>, n: int)
    requires
        1 <= n <= s.len(),
    ensures
        ({
            let k = last_max_ystem(s, n);
            &&& 0 <= k < n
            &&& forall|j: int| 0 <= j < n ==> #[trigger] s[j].note_ystem <= s[k].note_ystem
            &&& forall|j: int| k < j < n ==> #[trigger] s[j].note_ystem < s[k].note_ystem
        }),
    decreases n,
{
    if n > 1 {
        lemma_last_max_ystem_extreme(s, n - 1);
    }
}

proof fn lemma_first_min_ystem_extreme(s: Seq<BeamNoteInfo>, n: int)
    requires
        1 <= n <= s.len(),
    ensures
        ({
            let k = first_min_ystem(s, n);
            &&& 0 <= k < n
            &&& forall|j: int| 0 <= j < n ==> #[trigger] s[j].note_ystem >= s[k].note_ystem
            &&& forall|j: int| 0 <= j < k ==> #[trigger] s[j].note_ystem > s[k].note_ystem
        }),
    decreases n,
{
    if n > 1 {
        lemma_first_min_ystem_extreme(s, n - 1);
    }
}

/// The base note of a group is the one whose stem end is farthest from the
/// heads: with stems down (the first stem end below its head) no stem end is
/// lower than the base note's and every later one is higher; with stems up
/// no stem end is higher than the base note's and every earlier one is
/// lower.
pub proof fn lemma_beam_base_is_extreme(s: Seq<BeamNoteInfo>)
    requires
        s.len() >= 1,
    ensures
        ({
            let b = beam_base_index(s);
            &&& 0 <= b < s.len()
            &&& s[0].note_ystem > s[0].note_yd ==> {
                &&& forall|j: int| 0 <= j < s.len() ==> #[trigger] s[j].note_ystem <= s[b].note_ystem
                &&& forall|j: int| b < j < s.len() ==> #[trigger] s[j].note_ystem < s[b].note_ystem
            }
            &&& s[0].note_ystem <= s[0].note_yd ==> {
                &&& forall|j: int| 0 <= j < s.len() ==> #[trigger] s[j].note_ystem >= s[b].note_ystem
                &&& forall|j: int| 0 <= j < b ==> #[trigger] s[j].note_ystem > s[b].note_ystem
            }
        }),
{
    lemma_last_max_ystem_extreme(s, s.len() as int);
    lemma_first_min_ystem_extreme(s, s.len() as int);
}

/// `num / den` rounded to the nearest integer, halves away from zero
/// (see `round_div`), for `den != 0`.
fn round_ratio(num: i64, den: i64) -> (r: i64)
    requires
        den != 0,
        -0x1_0000_0000_0000 <= num <= 0x1_0000_0000_0000,
        -0x1_0000_0000_0000 <= den <= 0x1_0000_0000_0000,
    ensures
        r == if den > 0 { round_div(num as int, den as int) } else { round_div(-num, -den) },
{
    let (n, d) = if den > 0 { (num, den) } else { (-num, -den) };
    if n >= 0 {
        assert(0 <= (2 * n + d) / (2 * d) <= 2 * n + d) by (nonlinear_arith)
            requires n >= 0, d > 0;
        (2 * n + d) / (2 * d)
    } else {
        assert(0 <= (2 * (-n) + d) / (2 * d) <= 2 * (-n) + d) by (nonlinear_arith)
            requires n < 0, d > 0;
        -((2 * (-n) + d) / (2 * d))
    }
}

/// The new stem ends of a beamed group (see `beam_stem_end`), or `None` for
/// fewer than two notes, a slope percentage not above 0, or outer syncs at
/// the same position.
pub fn compute_beam_slope(infos: &[BeamNoteInfo], rel_beam_slope: i16) -> (r: Option<Vec<Ddist>>)
    requires
        infos@.len() >= 2 && rel_beam_slope > 0 ==> beam_fits(infos@),
    ensures
        infos@.len() < 2 || rel_beam_slope <= 0
            || infos@[infos@.len() - 1].sync_xd == infos@[0].sync_xd <==> r is None,
        r matches Some(v) ==> v@.len() == infos@.len()
            && forall|i: int| 0 <= i < v@.len() ==> #[trigger] v@[i] == beam_stem_end(infos@, rel_beam_slope as int, i),
{
    if infos.len() < 2 || rel_beam_slope <= 0 {
        return None;
    }
    let n = infos.len();
    let stem_down = infos[0].note_ystem > infos[0].note_yd;
    let first_ystem = infos[0].note_ystem;
    let last_ystem = infos[n - 1].note_ystem;
    let end_diff: i16 = first_ystem - last_ystem;

    let mut base_idx: usize = 0;
    let mut i: usize = 1;
    while i < n
        invariant
            1 <= i <= n,
            n == infos@.len(),
            stem_down == (infos@[0].note_ystem > infos@[0].note_yd),
            base_idx == if stem_down { last_max_ystem(infos@, i as int) } else { first_min_ystem(infos@, i as int) },
            base_idx < i,
        decreases n - i,
    {
        if stem_down {
            if infos[i].note_ystem >= infos[base_idx].note_ystem {
                base_idx = i;
            }
        } else {
            if infos[i].note_ystem < infos[base_idx].note_ystem {
                base_idx = i;
            }
        }
        i = i + 1;
    }
    let base_ystem = infos[base_idx].note_ystem;
    let first_xd = infos[0].sync_xd;
    let last_xd = infos[n - 1].sync_xd;
    let beam_length: i16 = last_xd - first_xd;
    if beam_length == 0 {
        return None;
    }
    let base_xd = infos[base_idx].sync_xd;
    let base_to_first: i16 = first_xd - base_xd;
    let den: i64 = 100 * (beam_length as i64);
    assert(-0x8000 * 0x7FFF <= (end_diff as int) * (rel_beam_slope as int) <= 0x8000 * 0x7FFF) by (nonlinear_arith)
        requires
            -0x8000 <= end_diff <= 0x7FFF,
            0 < rel_beam_slope <= 0x7FFF;
    let slope_num: i64 = (end_diff as i64) * (rel_beam_slope as i64);
    assert(-0x8000 * 0x8000 * 100 <= (base_ystem as int) * (den as int) <= 0x8000 * 0x8000 * 100) by (nonlinear_arith)
        requires
            -0x8000 <= base_ystem <= 0x7FFF,
            -0x8000 * 100 <= den <= 0x8000 * 100;
    let base_term: i64 = (base_ystem as i64) * den;

    let mut result: Vec<Ddist> = Vec::new();
    let mut j: usize = 0;
    while j < n
        invariant
            j <= n,
            n == infos@.len(),
            n >= 2,
            rel_beam_slope > 0,
            beam_fits(infos@),
            stem_down == (infos@[0].note_ystem > infos@[0].note_yd),
            base_idx == beam_base_index(infos@),
            base_idx < n,
            first_xd == infos@[0].sync_xd,
            base_xd == infos@[base_idx as int].sync_xd,
            base_ystem == infos@[base_idx as int].note_ystem,
            beam_length as int == infos@[n - 1].sync_xd - infos@[0].sync_xd,
            beam_length != 0,
            base_to_first as int == first_xd - base_xd,
            end_diff as int == infos@[0].note_ystem - infos@[n - 1].note_ystem,
            den == 100 * (beam_length as int),
            slope_num == end_diff as int * rel_beam_slope as int,
            -0x8000 * 0x7FFF <= slope_num <= 0x8000 * 0x7FFF,
            base_term == base_ystem as int * den,
            -0x8000 * 0x8000 * 100 <= base_term <= 0x8000 * 0x8000 * 100,
            result@.len() == j,
            forall|k: int| 0 <= k < j ==> #[trigger] result@[k] == beam_stem_end(infos@, rel_beam_slope as int, k),
        decreases n - j,
    {
        let from_first: i16 = infos[j].sync_xd - first_xd;
        let offset: i64 = -(base_to_first as i64) - (from_first as i64);
        assert(-0x8000 * 0x7FFF * 0x10000 <= (slope_num as int) * (offset as int) <= 0x8000 * 0x7FFF * 0x10000) by (nonlinear_arith)
            requires
                -0x8000 * 0x7FFF <= slope_num <= 0x8000 * 0x7FFF,
                -0x10000 <= offset <= 0x10000;
        let term: i64 = slope_num * offset;
        let num: i64 = base_term + term;
        let rounded = round_ratio(num, den);
        let v: i16 = if rounded < -32768 { -32768 } else if rounded > 32767 { 32767 } else { rounded as i16 };
        proof {
            let s = infos@;
            assert(offset == s[base_idx as int].sync_xd as int - s[j as int].sync_xd as int);
            assert(base_term == s[base_idx as int].note_ystem as int * 100 * (beam_length as int)) by (nonlinear_arith)
                requires
                    base_term == base_ystem as int * den,
                    den == 100 * (beam_length as int),
                    base_ystem == s[base_idx as int].note_ystem;
            assert(term == end_diff as int * rel_beam_slope as int * offset) by (nonlinear_arith)
                requires
                    term == slope_num * offset,
                    slope_num == end_diff as int * rel_beam_slope as int;
        }
        result.push(v);
        j = j + 1;
    }
    Some(result)
}

/// A flat group stays flat: when every stem end is at the same height, every
/// new stem end is at that height too, whatever the slope percentage.
pub proof fn lemma_flat_beam_stays_flat(s: Seq<BeamNoteInfo>, rel: int, i: int)
    requires
        s.len() >= 2,
        0 <= i < s.len(),
        s[s.len() - 1].sync_xd != s[0].sync_xd,
        forall|j: int| 0 <= j < s.len() ==> #[trigger] s[j].note_ystem == s[0].note_ystem,
    ensures
        beam_stem_end(s, rel, i) == s[0].note_ystem,
{
    let n = s.len() as int;
    let b = beam_base_index(s);
    if s[0].note_ystem > s[0].note_yd {
        lemma_last_max_ystem(s, n);
    } else {
        lemma_first_min_ystem(s, n);
    }
    let y = s[0].note_ystem as int;
    let length = s[n - 1].sync_xd as int - s[0].sync_xd as int;
    assert(s[b].note_ystem == s[0].note_ystem);
    let num = y * 100 * length;
    let den = 100 * length;
    assert(s[0].note_ystem as int - s[n - 1].note_ystem as int == 0);
    assert(beam_stem_end(s, rel, i) == sat_i16(if den > 0 { round_div(num, den) } else { round_div(-num, -den) }));
    let (nn, dd) = if den > 0 { (num, den) } else { (-num, -den) };
    assert(nn == y * dd) by (nonlinear_arith)
        requires
            num == y * 100 * length,
            den == 100 * length,
            (nn == num && dd == den) || (nn == -num && dd == -den);
    assert(dd > 0);
    if nn >= 0 {
        assert(y >= 0) by (nonlinear_arith) requires nn == y * dd, dd > 0, nn >= 0;
        assert((2 * nn + dd) / (2 * dd) == y) by (nonlinear_arith)
            requires nn == y * dd, dd > 0, y >= 0;
    } else {
        assert(y < 0) by (nonlinear_arith) requires nn == y * dd, dd > 0, nn < 0;
        assert((2 * (-nn) + dd) / (2 * dd) == -y) by (nonlinear_arith)
            requires nn == y * dd, dd > 0, y < 0;
    }
}

/// The beam passes through the base note: its stem end is kept.
pub proof fn lemma_beam_anchored_at_base(s: Seq<BeamNoteInfo>, rel: int)
    requires
        s.len() >= 2,
        s[s.len() - 1].sync_xd != s[0].sync_xd,
    ensures
        beam_stem_end(s, rel, beam_base_index(s)) == s[beam_base_index(s)].note_ystem,
{
    let n = s.len() as int;
    let b = beam_base_index(s);
    if s[0].note_ystem > s[0].note_yd {
        lemma_last_max_ystem(s, n);
    } else {
        lemma_first_min_ystem(s, n);
    }
    let y = s[b].note_ystem as int;
    let length = s[n - 1].sync_xd as int - s[0].sync_xd as int;
    let end_diff = s[0].note_ystem as int - s[n - 1].note_ystem as int;
    let num = y * 100 * length + end_diff * rel * (s[b].sync_xd as int - s[b].sync_xd as int);
    assert(num == y * 100 * length);
    let den = 100 * length;
    let (nn, dd) = if den > 0 { (num, den) } else { (-num, -den) };
    assert(nn == y * dd) by (nonlinear_arith)
        requires
            num == y * 100 * length,
            den == 100 * length,
            (nn == num && dd == den) || (nn == -num && dd == -den);
    assert(dd > 0);
    if nn >= 0 {
        assert(y >= 0) by (nonlinear_arith) requires nn == y * dd, dd > 0, nn >= 0;
        assert((2 * nn + dd) / (2 * dd) == y) by (nonlinear_arith)
            requires nn == y * dd, dd > 0, y >= 0;
    } else {
        assert(y < 0) by (nonlinear_arith) requires nn == y * dd, dd > 0, nn < 0;
        assert((2 * (-nn) + dd) / (2 * dd) == -y) by (nonlinear_arith)
            requires nn == y * dd, dd > 0, y < 0;
    }
}

proof fn lemma_round_div_monotone(n1: int, n2: int, d: int)
    requires
        n1 <= n2,
        d > 0,
    ensures
        round_div(n1, d) <= round_div(n2, d),
{
    if n1 >= 0 {
        vstd::arithmetic::div_mod::lemma_div_is_ordered(2 * n1 + d, 2 * n2 + d, 2 * d);
    } else if n2 < 0 {
        vstd::arithmetic::div_mod::lemma_div_is_ordered(2 * (-n2) + d, 2 * (-n1) + d, 2 * d);
    } else {
        vstd::arithmetic::div_mod::lemma_div_pos_is_pos(2 * (-n1) + d, 2 * d);
        vstd::arithmetic::div_mod::lemma_div_pos_is_pos(2 * n2 + d, 2 * d);
    }
}

/// The beam slopes the way the outer stems do: when the stem ends of the
/// outer notes fall (or rise) from left to right, so do the new stem ends,
/// from any note to any note at or to the right of it. Stated for notes `i`
/// and `j` whose positions are ordered the way the outer stem ends are:
/// `(first end - last end) * (last x - first x) * (x_j - x_i) >= 0`.
pub proof fn lemma_beam_follows_outer_slope(s: Seq<BeamNoteInfo>, rel: int, i: int, j: int)
    requires
        s.len() >= 2,
        rel > 0,
        s[s.len() - 1].sync_xd != s[0].sync_xd,
        0 <= i < s.len(),
        0 <= j < s.len(),
        (s[0].note_ystem as int - s[s.len() - 1].note_ystem as int)
            * (s[s.len() - 1].sync_xd as int - s[0].sync_xd as int)
            * (s[j].sync_xd as int - s[i].sync_xd as int) >= 0,
    ensures
        beam_stem_end(s, rel, i) >= beam_stem_end(s, rel, j),
{
    let n = s.len() as int;
    let b = beam_base_index(s);
    let length = s[n - 1].sync_xd as int - s[0].sync_xd as int;
    let e = s[0].note_ystem as int - s[n - 1].note_ystem as int;
    let yb = s[b].note_ystem as int;
    let xb = s[b].sync_xd as int;
    let xi = s[i].sync_xd as int;
    let xj = s[j].sync_xd as int;
    let num_i = yb * 100 * length + e * rel * (xb - xi);
    let num_j = yb * 100 * length + e * rel * (xb - xj);
    let den = 100 * length;
    assert(num_i - num_j == e * rel * (xj - xi)) by (nonlinear_arith)
        requires
            num_i == yb * 100 * length + e * rel * (xb - xi),
            num_j == yb * 100 * length + e * rel * (xb - xj);
    if length > 0 {
        assert(e * (xj - xi) >= 0) by (nonlinear_arith)
            requires e * length * (xj - xi) >= 0, length > 0;
        assert(e * rel * (xj - xi) >= 0) by (nonlinear_arith)
            requires e * (xj - xi) >= 0, rel > 0;
        lemma_round_div_monotone(num_j, num_i, den);
    } else {
        assert(e * (xj - xi) <= 0) by (nonlinear_arith)
            requires e * length * (xj - xi) >= 0, length < 0;
        assert(e * rel * (xj - xi) <= 0) by (nonlinear_arith)
            requires e * (xj - xi) <= 0, rel > 0;
        lemma_round_div_monotone(-num_j, -num_i, -den);
    }
}

} // verus!
