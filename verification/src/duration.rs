//! Duration and rhythm arithmetic.
//!
//! All durations are measured in play-duration ticks: the shortest note (a
//! 128th) lasts `PDURUNIT` = 15 ticks and a whole note lasts 1920 ticks.
//! Duration codes: breve 1, whole 2, half 3, quarter 4, ... 128th 9.
use vstd::prelude::*;
use crate::defs::{lemma_trunc_div_bounded, trunc_div, WHOLE_L_DUR};

verus! {

/// Play duration unit: ticks of the shortest note.
pub const PDURUNIT: i32 = 15;

/// Ticks of a whole note.
pub const WHOLE_NOTE_PDUR: i32 = 1920;

/// Logical-to-physical duration table, indexed by duration code.
/// Index 0 is unused; a breve is two whole notes, and each entry after it
/// is half the one before.
pub const L2P_DURS: [i32; 10] = [0, 3840, 1920, 960, 480, 240, 120, 60, 30, 15];

/// The entry of the duration table for code index `i` (0..=9).
pub open spec fn l2p(i: int) -> int {
    if i == 0 { 0 }
    else if i == 1 { 3840 }
    else if i == 2 { 1920 }
    else if i == 3 { 960 }
    else if i == 4 { 480 }
    else if i == 5 { 240 }
    else if i == 6 { 120 }
    else if i == 7 { 60 }
    else if i == 8 { 30 }
    else if i == 9 { 15 }
    else { 0 }
}

/// The table index used for a duration code: codes outside 0..=9 use the last entry.
pub open spec fn l_dur_index(dur_code: int) -> int {
    if 0 <= dur_code <= 9 { dur_code } else { 9 }
}

/// Sum of the table entries for the dots `j..=n_dots` of a note with code
/// `dur_code`: the dot `j` adds the entry `dur_code + j`, and the first dot
/// that falls outside the table ends the sum.
pub open spec fn dots_sum(dur_code: int, j: int, n_dots: int) -> int
    decreases n_dots + 1 - j,
{
    if j > n_dots || dur_code + j < 0 || dur_code + j >= 10 {
        0
    } else {
        l2p(dur_code + j) + dots_sum(dur_code, j + 1, n_dots)
    }
}

/// Logical duration of a note: the base entry plus one shorter entry per dot.
pub open spec fn spec_code_to_l_dur(dur_code: int, n_dots: int) -> int {
    l2p(l_dur_index(dur_code)) + dots_sum(dur_code, 1, n_dots)
}

/// Convert a duration code and a number of augmentation dots to a logical
/// duration in ticks: the base duration plus, for each dot, the next shorter
/// duration, stopping at the 128th.
pub fn code_to_l_dur(dur_code: i8, n_dots: u8) -> (r: i32)
    requires
        n_dots == 0 || dur_code < 127,
    ensures
        r == spec_code_to_l_dur(dur_code as int, n_dots as int),
{
    assert(L2P_DURS@ == seq![0i32, 3840, 1920, 960, 480, 240, 120, 60, 30, 15]);
    let idx: usize = if 0 <= dur_code && dur_code <= 9 { dur_code as usize } else { 9 };
    let mut note_dur: i32 = L2P_DURS[idx];
    let mut j: u16 = 1;
    while j <= n_dots as u16
        invariant
            1 <= j <= 256,
            L2P_DURS@ == seq![0i32, 3840, 1920, 960, 480, 240, 120, 60, 30, 15],
            j as int - 1 <= n_dots as int,
            note_dur + dots_sum(dur_code as int, j as int, n_dots as int)
                == spec_code_to_l_dur(dur_code as int, n_dots as int),
            0 <= note_dur <= 3840 * j,
        ensures
            note_dur == spec_code_to_l_dur(dur_code as int, n_dots as int),
        decreases n_dots as int + 1 - j as int,
    {
        let sum: i16 = dur_code as i16 + j as i16;
        if sum < 0 || sum >= 10 {
            break;
        }
        let dot_idx: usize = sum as usize;
        note_dur = note_dur + L2P_DURS[dot_idx];
        j = j + 1;
    }
    note_dur
}

/// Total duration in ticks of a note with the given code and dots; the same
/// value as `code_to_l_dur`.
pub fn simple_l_dur(l_dur: i8, n_dots: u8) -> (r: i32)
    requires
        n_dots == 0 || l_dur < 127,
    ensures
        r == spec_code_to_l_dur(l_dur as int, n_dots as int),
{
    code_to_l_dur(l_dur, n_dots)
}

/// Number of times a positive value can be halved (with truncation) before it
/// is at most 1; 0 for values at most 1.
pub open spec fn halvings(d: int) -> int
    decreases d,
{
    if d <= 1 { 0 } else { 1 + halvings(d / 2) }
}

proof fn lemma_halvings_nonneg(d: int)
    ensures
        halvings(d) >= 0,
    decreases d,
{
    if d > 1 {
        lemma_halvings_nonneg(d / 2);
    }
}

/// `2` raised to the power `k`.
pub open spec fn pow2(k: nat) -> int
    decreases k,
{
    if k == 0 { 1 } else { 2 * pow2((k - 1) as nat) }
}

proof fn lemma_halvings_bound(d: int, k: nat)
    requires
        d < pow2(k),
    ensures
        0 <= halvings(d) <= k,
    decreases d,
{
    if d > 1 {
        if k == 0 {
            assert(false);
        }
        assert(d / 2 < pow2((k - 1) as nat));
        lemma_halvings_bound(d / 2, (k - 1) as nat);
    }
}

/// The duration code of one beat for a time-signature denominator: the whole
/// note's code plus the number of halvings of the denominator (2 gives a half,
/// 4 a quarter, 8 an eighth).
pub fn beat_l_dur(denominator: i8) -> (r: i8)
    ensures
        r == WHOLE_L_DUR + halvings(denominator as int),
{
    let mut halving_count: i8 = 0;
    let mut denom: i8 = denominator;
    proof {
        reveal_with_fuel(pow2, 8);
        lemma_halvings_bound(denominator as int, 7);
        lemma_halvings_nonneg(denominator as int);
    }
    while denom > 1
        invariant
            halving_count + halvings(denom as int) == halvings(denominator as int),
            0 <= halving_count,
            halvings(denominator as int) <= 7,
            halvings(denom as int) >= 0,
        decreases denom,
    {
        proof {
            lemma_halvings_nonneg(denom as int / 2);
        }
        denom = denom / 2;
        halving_count = halving_count + 1;
    }
    WHOLE_L_DUR + halving_count
}

/// Duration of one beat in ticks: a whole note divided by the denominator,
/// tripled for compound meters.
pub fn beats_dur(denominator: i8, compound: bool) -> (r: i32)
    requires
        denominator != 0,
    ensures
        r == (if compound { 3int } else { 1int }) * trunc_div(1920, denominator as int),
{
    let whole_dur: i32 = L2P_DURS[2];
    assert(whole_dur == 1920) by {
        assert(L2P_DURS@ == seq![0i32, 3840, 1920, 960, 480, 240, 120, 60, 30, 15]);
    }
    let mut beat_dur: i32 = whole_dur / (denominator as i32);
    assert(beat_dur == trunc_div(1920, denominator as int) && -1920 <= beat_dur <= 1920) by {
        lemma_trunc_div_bounded(1920, denominator as int);
    }
    if compound {
        beat_dur = beat_dur * 3;
    }
    beat_dur
}

/// Duration of a measure in ticks: `numerator * 1920 / denominator`, truncated.
pub fn measure_dur(numerator: i8, denominator: i8) -> (r: i32)
    requires
        denominator != 0,
    ensures
        r == trunc_div(numerator * 1920, denominator as int),
{
    let whole_dur: i32 = L2P_DURS[2];
    assert(whole_dur == 1920) by {
        assert(L2P_DURS@ == seq![0i32, 3840, 1920, 960, 480, 240, 120, 60, 30, 15]);
    }
    let n: i32 = numerator as i32 * whole_dur;
    let r: i32 = n / (denominator as i32);
    proof {
        lemma_trunc_div_bounded(n as int, denominator as int);
    }
    r
}

/// Beats in a measure: the numerator, or a third of it (truncated) in a
/// compound meter.
pub fn beats_per_measure(numerator: i8, compound: bool) -> (r: i8)
    ensures
        r == if compound { trunc_div(numerator as int, 3) } else { numerator as int },
{
    if compound {
        proof { lemma_trunc_div_bounded(numerator as int, 3); }
        numerator / 3
    } else {
        numerator
    }
}

/// Two consecutive undotted durations from breve to 128th halve: each
/// code's duration is twice the next shorter code's duration.
pub proof fn lemma_durations_halve(code: int)
    requires
        1 <= code <= 8,
    ensures
        spec_code_to_l_dur(code, 0) == 2 * spec_code_to_l_dur(code + 1, 0),
{
}

/// A single dot adds half the note's value: for codes whole through 64th,
/// the dotted duration is three halves of the undotted one.
pub proof fn lemma_dot_adds_half(code: int)
    requires
        2 <= code <= 8,
    ensures
        2 * spec_code_to_l_dur(code, 1) == 3 * spec_code_to_l_dur(code, 0),
{
    reveal_with_fuel(dots_sum, 2);
}

/// Each dot adds at most one table entry, and there are at most nine.
pub proof fn lemma_dots_sum_bounded(dur_code: int, j: int, n_dots: int)
    ensures
        0 <= dots_sum(dur_code, j, n_dots),
        0 <= dur_code + j <= 10 ==> dots_sum(dur_code, j, n_dots) <= 3840 * (10 - (dur_code + j)),
        (dur_code + j < 0 || dur_code + j >= 10) ==> dots_sum(dur_code, j, n_dots) == 0,
    decreases n_dots + 1 - j,
{
    if j > n_dots || dur_code + j < 0 || dur_code + j >= 10 {
    } else {
        assert(0 <= l2p(dur_code + j) <= 3840);
        lemma_dots_sum_bounded(dur_code, j + 1, n_dots);
    }
}

/// A logical duration lies between 0 and twenty-two whole notes.
pub proof fn lemma_l_dur_bounded(dur_code: int, n_dots: int)
    ensures
        0 <= spec_code_to_l_dur(dur_code, n_dots) <= 42240,
{
    assert(0 <= l2p(l_dur_index(dur_code)) <= 3840);
    lemma_dots_sum_bounded(dur_code, 1, n_dots);
}

proof fn lemma_dots_sum_step(d: int, j: int, n: int)
    requires
        1 <= j <= n,
        1 <= d,
        d + n <= 9,
    ensures
        dots_sum(d, j, n) == dots_sum(d, j, n - 1) + l2p(d + n),
    decreases n - j,
{
    if j < n {
        lemma_dots_sum_step(d, j + 1, n);
        assert(dots_sum(d, j, n) == l2p(d + j) + dots_sum(d, j + 1, n));
        assert(dots_sum(d, j, n - 1) == l2p(d + j) + dots_sum(d, j + 1, n - 1));
    } else {
        assert(dots_sum(d, n + 1, n) == 0);
        assert(dots_sum(d, n, n) == l2p(d + n) + dots_sum(d, n + 1, n));
        assert(dots_sum(d, n, n - 1) == 0);
    }
}

/// Each dot adds the next shorter table entry: for a code from breve on
/// whose dots stay within the table, `n` dots last as long as `n - 1` dots
/// plus the entry `n` steps shorter.
pub proof fn lemma_each_dot_adds_next_entry(d: int, n: int)
    requires
        1 <= d,
        1 <= n,
        d + n <= 9,
    ensures
        spec_code_to_l_dur(d, n) == spec_code_to_l_dur(d, n - 1) + l2p(d + n),
{
    lemma_dots_sum_step(d, 1, n);
}

proof fn lemma_l2p_halvings(d: int, j: nat)
    requires
        1 <= d,
        d + j <= 9,
    ensures
        pow2(j) * l2p(d + j) == l2p(d),
    decreases j,
{
    if j > 0 {
        lemma_l2p_halvings(d, (j - 1) as nat);
        assert(l2p(d + j - 1) == 2 * l2p(d + j));
        assert(pow2(j) * l2p(d + j) == pow2((j - 1) as nat) * (2 * l2p(d + j))) by (nonlinear_arith)
            requires pow2(j) == 2 * pow2((j - 1) as nat);
    }
}

/// The closed form of dotted durations: for a code from breve on whose `n`
/// dots stay within the table, the duration is the undotted one times
/// `(2^(n+1) - 1) / 2^n` (1, 1.5, 1.75, ...).
pub proof fn lemma_dotted_duration_closed_form(d: int, n: nat)
    requires
        1 <= d,
        d + n <= 9,
    ensures
        pow2(n) * spec_code_to_l_dur(d, n as int) == spec_code_to_l_dur(d, 0) * (pow2(n + 1) - 1),
    decreases n,
{
    if n == 0 {
        assert(dots_sum(d, 1, 0) == 0);
        assert(pow2(1) == 2 * pow2(0));
        assert(pow2(0) == 1);
        assert(spec_code_to_l_dur(d, 0) == l2p(d));
        let x = spec_code_to_l_dur(d, 0);
        assert(pow2(0) * x == x * (pow2(1) - 1)) by (nonlinear_arith)
            requires pow2(0) == 1, pow2(1) == 2;
    } else {
        lemma_dotted_duration_closed_form(d, (n - 1) as nat);
        lemma_each_dot_adds_next_entry(d, n as int);
        lemma_l2p_halvings(d, n);
        assert(dots_sum(d, 1, 0) == 0);
        let a = spec_code_to_l_dur(d, n as int);
        let b = spec_code_to_l_dur(d, n - 1);
        let base = spec_code_to_l_dur(d, 0);
        let e = l2p(d + n);
        let p = pow2((n - 1) as nat);
        assert(base == l2p(d));
        assert(pow2(n) == 2 * p);
        assert(pow2(n + 1) == 2 * pow2(n));
        assert(p * b == base * (2 * p - 1));
        assert(2 * p * e == base);
        assert(pow2(n) * a == base * (pow2(n + 1) - 1)) by (nonlinear_arith)
            requires
                a == b + e,
                p * b == base * (2 * p - 1),
                2 * p * e == base,
                pow2(n) == 2 * p,
                pow2(n + 1) == 2 * pow2(n);
    }
}

} // verus!
