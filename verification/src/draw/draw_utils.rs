//! Glyph mapping: duration codes, note head shapes, accidentals, clefs and
//! flags to SMuFL code points; key signature positions; Mac Roman and
//! Sonata font character codes.
use vstd::prelude::*;
use crate::defs::{
    BREVE_L_DUR, EIGHTH_L_DUR, HALF_L_DUR, ONE28TH_L_DUR, QTR_L_DUR, SIXTEENTH_L_DUR,
    SIXTY4TH_L_DUR, THIRTY2ND_L_DUR, UNKNOWN_L_DUR, WHOLEMR_L_DUR, WHOLE_L_DUR,
};
use crate::text::str_is;

verus! {

/// Note head shape: invisible.
pub const NO_VIS: u8 = 0;
/// Note head shape: normal.
pub const NORMAL_VIS: u8 = 1;
/// Note head shape: X.
pub const X_SHAPE: u8 = 2;
/// Note head shape: harmonic.
pub const HARMONIC_SHAPE: u8 = 3;
/// Note head shape: hollow square.
pub const SQUAREH_SHAPE: u8 = 4;
/// Note head shape: filled square.
pub const SQUAREF_SHAPE: u8 = 5;
/// Note head shape: hollow diamond.
pub const DIAMONDH_SHAPE: u8 = 6;
/// Note head shape: filled diamond.
pub const DIAMONDF_SHAPE: u8 = 7;
/// Note head shape: always a half-note head.
pub const HALFNOTE_SHAPE: u8 = 8;
/// Note head shape: chord slash, drawn as a line.
pub const SLASH_SHAPE: u8 = 9;
/// Note head shape: nothing visible.
pub const NOTHING_VIS: u8 = 10;

/// Note head for a duration: double whole for a breve, whole, half, and
/// black for a quarter or shorter.
pub fn notehead_glyph_for_duration(l_dur: i8) -> (r: u32)
    ensures
        r == if l_dur == BREVE_L_DUR {
            0xE0A0u32
        } else if l_dur == WHOLE_L_DUR {
            0xE0A2u32
        } else if l_dur == HALF_L_DUR {
            0xE0A3u32
        } else {
            0xE0A4u32
        },
{
    if l_dur == BREVE_L_DUR {
        0xE0A0
    } else if l_dur == WHOLE_L_DUR {
        0xE0A2
    } else if l_dur == HALF_L_DUR {
        0xE0A3
    } else {
        0xE0A4
    }
}

/// The note head glyph for a head shape and duration.
pub open spec fn spec_notehead_glyph(head_shape: u8, l_dur: i8) -> u32 {
    if head_shape == X_SHAPE {
        if l_dur == WHOLE_L_DUR { 0xE0A7 } else if l_dur == HALF_L_DUR { 0xE0A8 } else { 0xE0A9 }
    } else if head_shape == HARMONIC_SHAPE || head_shape == DIAMONDH_SHAPE {
        if l_dur == WHOLE_L_DUR || l_dur == BREVE_L_DUR { 0xE0D2 } else { 0xE0D3 }
    } else if head_shape == SQUAREH_SHAPE {
        0xE0B9
    } else if head_shape == SQUAREF_SHAPE {
        0xE0B3
    } else if head_shape == DIAMONDF_SHAPE {
        0xE0DB
    } else if head_shape == HALFNOTE_SHAPE {
        0xE0A3
    } else if head_shape == SLASH_SHAPE {
        0
    } else if l_dur == BREVE_L_DUR {
        0xE0A0
    } else if l_dur == WHOLE_L_DUR {
        0xE0A2
    } else if l_dur == HALF_L_DUR {
        0xE0A3
    } else {
        0xE0A4
    }
}

/// Note head glyph for a head shape and duration (see `spec_notehead_glyph`);
/// 0 for a slash, which is drawn as a line.
pub fn notehead_glyph(head_shape: u8, l_dur: i8) -> (r: u32)
    ensures
        r == spec_notehead_glyph(head_shape, l_dur),
{
    if head_shape == X_SHAPE {
        if l_dur == WHOLE_L_DUR {
            0xE0A7
        } else if l_dur == HALF_L_DUR {
            0xE0A8
        } else {
            0xE0A9
        }
    } else if head_shape == HARMONIC_SHAPE {
        if l_dur == WHOLE_L_DUR || l_dur == BREVE_L_DUR {
            0xE0D2
        } else {
            0xE0D3
        }
    } else if head_shape == SQUAREH_SHAPE {
        0xE0B9
    } else if head_shape == SQUAREF_SHAPE {
        0xE0B3
    } else if head_shape == DIAMONDH_SHAPE {
        if l_dur == WHOLE_L_DUR || l_dur == BREVE_L_DUR {
            0xE0D2
        } else {
            0xE0D3
        }
    } else if head_shape == DIAMONDF_SHAPE {
        0xE0DB
    } else if head_shape == HALFNOTE_SHAPE {
        0xE0A3
    } else if head_shape == SLASH_SHAPE {
        0
    } else {
        notehead_glyph_for_duration(l_dur)
    }
}

/// The duration a rest is drawn with: a whole rest for whole-measure rests
/// (duration codes -1 and below), a breve for the unknown code 0, and the
/// code itself otherwise.
pub fn resolve_rest_l_dur(l_dur: i8) -> (r: i8)
    ensures
        r == if l_dur <= WHOLEMR_L_DUR {
            WHOLE_L_DUR
        } else if l_dur == UNKNOWN_L_DUR {
            BREVE_L_DUR
        } else {
            l_dur
        },
{
    if l_dur <= WHOLEMR_L_DUR {
        WHOLE_L_DUR
    } else if l_dur == UNKNOWN_L_DUR {
        BREVE_L_DUR
    } else {
        l_dur
    }
}

/// Rest glyph for a duration code 1..=9 (breve ... 128th): U+E4E1 plus the
/// code; a quarter rest for any other code.
pub fn rest_glyph_for_duration(l_dur: i8) -> (r: u32)
    ensures
        r == if BREVE_L_DUR <= l_dur <= ONE28TH_L_DUR { (0xE4E1 + l_dur) as u32 } else { 0xE4E5u32 },
{
    if l_dur == BREVE_L_DUR {
        0xE4E2
    } else if l_dur == WHOLE_L_DUR {
        0xE4E3
    } else if l_dur == HALF_L_DUR {
        0xE4E4
    } else if l_dur == QTR_L_DUR {
        0xE4E5
    } else if l_dur == EIGHTH_L_DUR {
        0xE4E6
    } else if l_dur == SIXTEENTH_L_DUR {
        0xE4E7
    } else if l_dur == THIRTY2ND_L_DUR {
        0xE4E8
    } else if l_dur == SIXTY4TH_L_DUR {
        0xE4E9
    } else if l_dur == ONE28TH_L_DUR {
        0xE4EA
    } else {
        0xE4E5
    }
}

/// Vertical offset of rest glyphs in half-spaces, by duration code.
pub const REST_Y_OFFSET: [i16; 10] = [0, 0, 0, 0, 0, -1, 1, 1, 3, 3];

/// Accidental glyph for accidental codes 1..=5 (double flat, flat, natural,
/// sharp, double sharp); none for other codes.
pub fn accidental_glyph(accident_code: u8) -> (r: Option<u32>)
    ensures
        r == if accident_code == 1 {
            Some(0xE264u32)
        } else if accident_code == 2 {
            Some(0xE260u32)
        } else if accident_code == 3 {
            Some(0xE261u32)
        } else if accident_code == 4 {
            Some(0xE262u32)
        } else if accident_code == 5 {
            Some(0xE263u32)
        } else {
            None
        },
{
    match accident_code {
        1 => Some(0xE264),
        2 => Some(0xE260),
        3 => Some(0xE261),
        4 => Some(0xE262),
        5 => Some(0xE263),
        _ => None,
    }
}

/// Clef glyph: G clef 8va for treble-8, G clef for treble, G clef 8vb for
/// tenor-treble, C clef for soprano through baritone (except tenor-treble),
/// F clef for bass, F clef 8vb for bass-8b, percussion clef; G clef for any
/// other type.
pub open spec fn spec_clef_glyph(clef_type: i8) -> u32 {
    if clef_type == 1 {
        0xE053
    } else if clef_type == 7 {
        0xE052
    } else if clef_type == 4 || clef_type == 5 || clef_type == 6 || clef_type == 8 || clef_type == 9 {
        0xE05C
    } else if clef_type == 10 {
        0xE062
    } else if clef_type == 11 {
        0xE064
    } else if clef_type == 12 {
        0xE069
    } else {
        0xE050
    }
}

/// Clef glyph (see `spec_clef_glyph`).
pub fn clef_glyph(clef_type: i8) -> (r: u32)
    ensures
        r == spec_clef_glyph(clef_type),
{
    match clef_type {
        1 => 0xE053,
        3 => 0xE050,
        7 => 0xE052,
        4 | 5 | 6 | 8 | 9 => 0xE05C,
        10 => 0xE062,
        11 => 0xE064,
        12 => 0xE069,
        _ => 0xE050,
    }
}

/// Half-line (0 = top line of a five-line staff) of a clef glyph's origin.
pub open spec fn spec_clef_halfline(clef_type: i8) -> i16 {
    if clef_type == 1 || clef_type == 3 || clef_type == 7 || clef_type == 5 {
        6
    } else if clef_type == 4 {
        8
    } else if clef_type == 8 || clef_type == 10 || clef_type == 11 {
        2
    } else if clef_type == 9 {
        0
    } else {
        4
    }
}

/// Half-line of a clef glyph's origin (see `spec_clef_halfline`).
pub fn clef_halfline_position(clef_type: i8) -> (r: i16)
    ensures
        r == spec_clef_halfline(clef_type),
{
    match clef_type {
        1 | 3 | 7 => 6,
        4 => 8,
        5 => 6,
        6 => 4,
        8 => 2,
        9 => 0,
        10 | 11 => 2,
        12 => 4,
        _ => 4,
    }
}

/// Flag glyph for an unbeamed eighth or sixteenth note, up or down; none
/// for other durations.
pub fn flag_glyph(l_dur: i8, stem_up: bool) -> (r: Option<u32>)
    ensures
        r == if l_dur == EIGHTH_L_DUR {
            Some(if stem_up { 0xE240u32 } else { 0xE241u32 })
        } else if l_dur == SIXTEENTH_L_DUR {
            Some(if stem_up { 0xE242u32 } else { 0xE243u32 })
        } else {
            None
        },
{
    if l_dur == EIGHTH_L_DUR {
        if stem_up {
            Some(0xE240)
        } else {
            Some(0xE241)
        }
    } else if l_dur == SIXTEENTH_L_DUR {
        if stem_up {
            Some(0xE242)
        } else {
            Some(0xE243)
        }
    } else {
        None
    }
}

/// Key signature position table entry: half-line of the accidental for a
/// letter code 0..=6 (F, E, D, C, B, A, G), for one clef family.
pub open spec fn ks_table(family: int, is_sharp: bool, idx: int) -> i8 {
    let row: Seq<i8> = if family == 0 {
        if is_sharp { seq![0i8, 1, 2, 3, 4, 5, -1i8] } else { seq![7i8, 1, 2, 3, 4, 5, 6] }
    } else if family == 1 {
        seq![5i8, 6, 7, 1, 2, 3, 4]
    } else if family == 2 {
        seq![3i8, 4, 5, 6, 7, 1, 2]
    } else if family == 3 {
        if is_sharp { seq![1i8, 2, 3, 4, 5, 6, 0] } else { seq![8i8, 2, 3, 4, 5, 6, 7] }
    } else if family == 4 {
        seq![6i8, 0, 1, 2, 3, 4, 5]
    } else if family == 5 {
        seq![4i8, 5, 6, 7, 1, 2, 3]
    } else {
        if is_sharp { seq![2i8, 3, 4, 5, 6, 7, 1] } else { seq![9i8, 3, 4, 5, 6, 7, 8] }
    };
    row[idx]
}

/// The clef family of the key signature tables: treble (treble-8, French
/// violin, treble, tenor-treble, percussion and unknown clefs), soprano,
/// mezzo-soprano, alto, tenor, baritone, bass (bass and bass-8b).
pub open spec fn ks_family(clef_type: i8) -> int {
    if clef_type == 4 {
        1
    } else if clef_type == 5 {
        2
    } else if clef_type == 6 {
        3
    } else if clef_type == 8 {
        4
    } else if clef_type == 9 {
        5
    } else if clef_type == 10 || clef_type == 11 {
        6
    } else {
        0
    }
}

/// Half-line (0 = top line) of a key signature accidental for a clef, a
/// letter code (negative codes and codes above 6 use G's entry) and
/// sharp or flat.
pub fn get_ks_y_offset(clef_type: i8, letcode: i8, is_sharp: bool) -> (r: i8)
    ensures
        r == ks_table(ks_family(clef_type), is_sharp, if 0 <= letcode <= 6 { letcode as int } else { 6 }),
{
    let treble_sharp: [i8; 7] = [0, 1, 2, 3, 4, 5, -1];
    let treble_flat: [i8; 7] = [7, 1, 2, 3, 4, 5, 6];
    let alto_sharp: [i8; 7] = [1, 2, 3, 4, 5, 6, 0];
    let alto_flat: [i8; 7] = [8, 2, 3, 4, 5, 6, 7];
    let bass_sharp: [i8; 7] = [2, 3, 4, 5, 6, 7, 1];
    let bass_flat: [i8; 7] = [9, 3, 4, 5, 6, 7, 8];
    let tenor: [i8; 7] = [6, 0, 1, 2, 3, 4, 5];
    let soprano: [i8; 7] = [5, 6, 7, 1, 2, 3, 4];
    let mz_soprano: [i8; 7] = [3, 4, 5, 6, 7, 1, 2];
    let baritone: [i8; 7] = [4, 5, 6, 7, 1, 2, 3];
    let idx: usize = if letcode < 0 || letcode > 6 { 6 } else { letcode as usize };
    proof {
        assert(treble_sharp@ =~= seq![0i8, 1, 2, 3, 4, 5, -1i8]);
        assert(treble_flat@ =~= seq![7i8, 1, 2, 3, 4, 5, 6]);
        assert(alto_sharp@ =~= seq![1i8, 2, 3, 4, 5, 6, 0]);
        assert(alto_flat@ =~= seq![8i8, 2, 3, 4, 5, 6, 7]);
        assert(bass_sharp@ =~= seq![2i8, 3, 4, 5, 6, 7, 1]);
        assert(bass_flat@ =~= seq![9i8, 3, 4, 5, 6, 7, 8]);
        assert(tenor@ =~= seq![6i8, 0, 1, 2, 3, 4, 5]);
        assert(soprano@ =~= seq![5i8, 6, 7, 1, 2, 3, 4]);
        assert(mz_soprano@ =~= seq![3i8, 4, 5, 6, 7, 1, 2]);
        assert(baritone@ =~= seq![4i8, 5, 6, 7, 1, 2, 3]);
    }
    match clef_type {
        4 => soprano[idx],
        5 => mz_soprano[idx],
        6 => if is_sharp { alto_sharp[idx] } else { alto_flat[idx] },
        8 => tenor[idx],
        9 => baritone[idx],
        10 | 11 => if is_sharp { bass_sharp[idx] } else { bass_flat[idx] },
        _ => if is_sharp { treble_sharp[idx] } else { treble_flat[idx] },
    }
}

/// The names of the music fonts that share the Sonata character encoding.
pub open spec fn is_music_font_name_spec(name: Seq<char>) -> bool {
    ||| name == seq!['S', 'o', 'n', 'a', 't', 'a']
    ||| name == seq!['B', 'r', 'i', 'a', 'r', 'd']
    ||| name == seq!['P', 'e', 't', 'r', 'u', 'c', 'c', 'i']
    ||| name == seq!['O', 'p', 'u', 's']
    ||| name == seq!['O', 'p', 'u', 's', ' ', 'S', 't', 'd']
    ||| name == seq!['M', 'a', 'e', 's', 't', 'r', 'o']
    ||| name == seq!['E', 'n', 'g', 'r', 'a', 'v', 'e', 'r']
    ||| name == seq!['N', 'o', 'v', 'e', 'm', 'b', 'e', 'r']
    ||| name == seq!['B', 'r', 'a', 'v', 'u', 'r', 'a']
}

/// The font is one of the Sonata-compatible music fonts: Sonata, Briard,
/// Petrucci, Opus, Opus Std, Maestro, Engraver, November or Bravura.
pub fn is_music_font_name(name: &str) -> (r: bool)
    ensures
        r == is_music_font_name_spec(name@),
{
    let sonata = str_is(name, &['S', 'o', 'n', 'a', 't', 'a']);
    let briard = str_is(name, &['B', 'r', 'i', 'a', 'r', 'd']);
    let petrucci = str_is(name, &['P', 'e', 't', 'r', 'u', 'c', 'c', 'i']);
    let opus = str_is(name, &['O', 'p', 'u', 's']);
    let opus_std = str_is(name, &['O', 'p', 'u', 's', ' ', 'S', 't', 'd']);
    let maestro = str_is(name, &['M', 'a', 'e', 's', 't', 'r', 'o']);
    let engraver = str_is(name, &['E', 'n', 'g', 'r', 'a', 'v', 'e', 'r']);
    let november = str_is(name, &['N', 'o', 'v', 'e', 'm', 'b', 'e', 'r']);
    let bravura = str_is(name, &['B', 'r', 'a', 'v', 'u', 'r', 'a']);
    proof {
        assert(['S', 'o', 'n', 'a', 't', 'a']@ =~= seq!['S', 'o', 'n', 'a', 't', 'a']);
        assert(['B', 'r', 'i', 'a', 'r', 'd']@ =~= seq!['B', 'r', 'i', 'a', 'r', 'd']);
        assert(['P', 'e', 't', 'r', 'u', 'c', 'c', 'i']@ =~= seq!['P', 'e', 't', 'r', 'u', 'c', 'c', 'i']);
        assert(['O', 'p', 'u', 's']@ =~= seq!['O', 'p', 'u', 's']);
        assert(['O', 'p', 'u', 's', ' ', 'S', 't', 'd']@ =~= seq!['O', 'p', 'u', 's', ' ', 'S', 't', 'd']);
        assert(['M', 'a', 'e', 's', 't', 'r', 'o']@ =~= seq!['M', 'a', 'e', 's', 't', 'r', 'o']);
        assert(['E', 'n', 'g', 'r', 'a', 'v', 'e', 'r']@ =~= seq!['E', 'n', 'g', 'r', 'a', 'v', 'e', 'r']);
        assert(['N', 'o', 'v', 'e', 'm', 'b', 'e', 'r']@ =~= seq!['N', 'o', 'v', 'e', 'm', 'b', 'e', 'r']);
        assert(['B', 'r', 'a', 'v', 'u', 'r', 'a']@ =~= seq!['B', 'r', 'a', 'v', 'u', 'r', 'a']);
    }
    sonata || briard || petrucci || opus || opus_std || maestro || engraver || november || bravura
}

/// The Unicode code point of a Mac Roman byte (the Mac OS Roman encoding):
/// bytes below 0x80 are ASCII.
pub open spec fn mac_roman_decode(b: u8) -> u32 {
    match b {
        0x80u8 => 0x00C4u32,
        0x81u8 => 0x00C5u32,
        0x82u8 => 0x00C7u32,
        0x83u8 => 0x00C9u32,
        0x84u8 => 0x00D1u32,
        0x85u8 => 0x00D6u32,
        0x86u8 => 0x00DCu32,
        0x87u8 => 0x00E1u32,
        0x88u8 => 0x00E0u32,
        0x89u8 => 0x00E2u32,
        0x8Au8 => 0x00E4u32,
        0x8Bu8 => 0x00E3u32,
        0x8Cu8 => 0x00E5u32,
        0x8Du8 => 0x00E7u32,
        0x8Eu8 => 0x00E9u32,
        0x8Fu8 => 0x00E8u32,
        0x90u8 => 0x00EAu32,
        0x91u8 => 0x00EBu32,
        0x92u8 => 0x00EDu32,
        0x93u8 => 0x00ECu32,
        0x94u8 => 0x00EEu32,
        0x95u8 => 0x00EFu32,
        0x96u8 => 0x00F1u32,
        0x97u8 => 0x00F3u32,
        0x98u8 => 0x00F2u32,
        0x99u8 => 0x00F4u32,
        0x9Au8 => 0x00F6u32,
        0x9Bu8 => 0x00F5u32,
        0x9Cu8 => 0x00FAu32,
        0x9Du8 => 0x00F9u32,
        0x9Eu8 => 0x00FBu32,
        0x9Fu8 => 0x00FCu32,
        0xA0u8 => 0x2020u32,
        0xA1u8 => 0x00B0u32,
        0xA2u8 => 0x00A2u32,
        0xA3u8 => 0x00A3u32,
        0xA4u8 => 0x00A7u32,
        0xA5u8 => 0x2022u32,
        0xA6u8 => 0x00B6u32,
        0xA7u8 => 0x00DFu32,
        0xA8u8 => 0x00AEu32,
        0xA9u8 => 0x00A9u32,
        0xAAu8 => 0x2122u32,
        0xABu8 => 0x00B4u32,
        0xACu8 => 0x00A8u32,
        0xADu8 => 0x2260u32,
        0xAEu8 => 0x00C6u32,
        0xAFu8 => 0x00D8u32,
        0xB0u8 => 0x221Eu32,
        0xB1u8 => 0x00B1u32,
        0xB2u8 => 0x2264u32,
        0xB3u8 => 0x2265u32,
        0xB4u8 => 0x00A5u32,
        0xB5u8 => 0x00B5u32,
        0xB6u8 => 0x2202u32,
        0xB7u8 => 0x2211u32,
        0xB8u8 => 0x220Fu32,
        0xB9u8 => 0x03C0u32,
        0xBAu8 => 0x222Bu32,
        0xBBu8 => 0x00AAu32,
        0xBCu8 => 0x00BAu32,
        0xBDu8 => 0x03A9u32,
        0xBEu8 => 0x00E6u32,
        0xBFu8 => 0x00F8u32,
        0xC0u8 => 0x00BFu32,
        0xC1u8 => 0x00A1u32,
        0xC2u8 => 0x00ACu32,
        0xC3u8 => 0x221Au32,
        0xC4u8 => 0x0192u32,
        0xC5u8 => 0x2248u32,
        0xC6u8 => 0x2206u32,
        0xC7u8 => 0x00ABu32,
        0xC8u8 => 0x00BBu32,
        0xC9u8 => 0x2026u32,
        0xCAu8 => 0x00A0u32,
        0xCBu8 => 0x00C0u32,
        0xCCu8 => 0x00C3u32,
        0xCDu8 => 0x00D5u32,
        0xCEu8 => 0x0152u32,
        0xCFu8 => 0x0153u32,
        0xD0u8 => 0x2013u32,
        0xD1u8 => 0x2014u32,
        0xD2u8 => 0x201Cu32,
        0xD3u8 => 0x201Du32,
        0xD4u8 => 0x2018u32,
        0xD5u8 => 0x2019u32,
        0xD6u8 => 0x00F7u32,
        0xD7u8 => 0x25CAu32,
        0xD8u8 => 0x00FFu32,
        0xD9u8 => 0x0178u32,
        0xDAu8 => 0x2044u32,
        0xDBu8 => 0x20ACu32,
        0xDCu8 => 0x2039u32,
        0xDDu8 => 0x203Au32,
        0xDEu8 => 0xFB01u32,
        0xDFu8 => 0xFB02u32,
        0xE0u8 => 0x2021u32,
        0xE1u8 => 0x00B7u32,
        0xE2u8 => 0x201Au32,
        0xE3u8 => 0x201Eu32,
        0xE4u8 => 0x2030u32,
        0xE5u8 => 0x00C2u32,
        0xE6u8 => 0x00CAu32,
        0xE7u8 => 0x00C1u32,
        0xE8u8 => 0x00CBu32,
        0xE9u8 => 0x00C8u32,
        0xEAu8 => 0x00CDu32,
        0xEBu8 => 0x00CEu32,
        0xECu8 => 0x00CFu32,
        0xEDu8 => 0x00CCu32,
        0xEEu8 => 0x00D3u32,
        0xEFu8 => 0x00D4u32,
        0xF0u8 => 0xF8FFu32,
        0xF1u8 => 0x00D2u32,
        0xF2u8 => 0x00DAu32,
        0xF3u8 => 0x00DBu32,
        0xF4u8 => 0x00D9u32,
        0xF5u8 => 0x0131u32,
        0xF6u8 => 0x02C6u32,
        0xF7u8 => 0x02DCu32,
        0xF8u8 => 0x00AFu32,
        0xF9u8 => 0x02D8u32,
        0xFAu8 => 0x02D9u32,
        0xFBu8 => 0x02DAu32,
        0xFCu8 => 0x00B8u32,
        0xFDu8 => 0x02DDu32,
        0xFEu8 => 0x02DBu32,
        0xFFu8 => 0x02C7u32,
        _ => b as u32,
    }
}

/// The Mac Roman byte of a code point: the code point itself below 0x80,
/// the byte from 0x80 up that the Mac OS Roman encoding decodes to it, or
/// none.
pub open spec fn mac_roman_encode(cp: u32) -> Option<u8> {
    if cp < 0x80 {
        Some(cp as u8)
    } else {
        match cp {
            0x00C4u32 => Some(0x80u8),
            0x00C5u32 => Some(0x81u8),
            0x00C7u32 => Some(0x82u8),
            0x00C9u32 => Some(0x83u8),
            0x00D1u32 => Some(0x84u8),
            0x00D6u32 => Some(0x85u8),
            0x00DCu32 => Some(0x86u8),
            0x00E1u32 => Some(0x87u8),
            0x00E0u32 => Some(0x88u8),
            0x00E2u32 => Some(0x89u8),
            0x00E4u32 => Some(0x8Au8),
            0x00E3u32 => Some(0x8Bu8),
            0x00E5u32 => Some(0x8Cu8),
            0x00E7u32 => Some(0x8Du8),
            0x00E9u32 => Some(0x8Eu8),
            0x00E8u32 => Some(0x8Fu8),
            0x00EAu32 => Some(0x90u8),
            0x00EBu32 => Some(0x91u8),
            0x00EDu32 => Some(0x92u8),
            0x00ECu32 => Some(0x93u8),
            0x00EEu32 => Some(0x94u8),
            0x00EFu32 => Some(0x95u8),
            0x00F1u32 => Some(0x96u8),
            0x00F3u32 => Some(0x97u8),
            0x00F2u32 => Some(0x98u8),
            0x00F4u32 => Some(0x99u8),
            0x00F6u32 => Some(0x9Au8),
            0x00F5u32 => Some(0x9Bu8),
            0x00FAu32 => Some(0x9Cu8),
            0x00F9u32 => Some(0x9Du8),
            0x00FBu32 => Some(0x9Eu8),
            0x00FCu32 => Some(0x9Fu8),
            0x2020u32 => Some(0xA0u8),
            0x00B0u32 => Some(0xA1u8),
            0x00A2u32 => Some(0xA2u8),
            0x00A3u32 => Some(0xA3u8),
            0x00A7u32 => Some(0xA4u8),
            0x2022u32 => Some(0xA5u8),
            0x00B6u32 => Some(0xA6u8),
            0x00DFu32 => Some(0xA7u8),
            0x00AEu32 => Some(0xA8u8),
            0x00A9u32 => Some(0xA9u8),
            0x2122u32 => Some(0xAAu8),
            0x00B4u32 => Some(0xABu8),
            0x00A8u32 => Some(0xACu8),
            0x2260u32 => Some(0xADu8),
            0x00C6u32 => Some(0xAEu8),
            0x00D8u32 => Some(0xAFu8),
            0x221Eu32 => Some(0xB0u8),
            0x00B1u32 => Some(0xB1u8),
            0x2264u32 => Some(0xB2u8),
            0x2265u32 => Some(0xB3u8),
            0x00A5u32 => Some(0xB4u8),
            0x00B5u32 => Some(0xB5u8),
            0x2202u32 => Some(0xB6u8),
            0x2211u32 => Some(0xB7u8),
            0x220Fu32 => Some(0xB8u8),
            0x03C0u32 => Some(0xB9u8),
            0x222Bu32 => Some(0xBAu8),
            0x00AAu32 => Some(0xBBu8),
            0x00BAu32 => Some(0xBCu8),
            0x03A9u32 => Some(0xBDu8),
            0x2126u32 => Some(0xBDu8),
            0x00E6u32 => Some(0xBEu8),
            0x00F8u32 => Some(0xBFu8),
            0x00BFu32 => Some(0xC0u8),
            0x00A1u32 => Some(0xC1u8),
            0x00ACu32 => Some(0xC2u8),
            0x221Au32 => Some(0xC3u8),
            0x0192u32 => Some(0xC4u8),
            0x2248u32 => Some(0xC5u8),
            0x2206u32 => Some(0xC6u8),
            0x00ABu32 => Some(0xC7u8),
            0x00BBu32 => Some(0xC8u8),
            0x2026u32 => Some(0xC9u8),
            0x00A0u32 => Some(0xCAu8),
            0x00C0u32 => Some(0xCBu8),
            0x00C3u32 => Some(0xCCu8),
            0x00D5u32 => Some(0xCDu8),
            0x0152u32 => Some(0xCEu8),
            0x0153u32 => Some(0xCFu8),
            0x2013u32 => Some(0xD0u8),
            0x2014u32 => Some(0xD1u8),
            0x201Cu32 => Some(0xD2u8),
            0x201Du32 => Some(0xD3u8),
            0x2018u32 => Some(0xD4u8),
            0x2019u32 => Some(0xD5u8),
            0x00F7u32 => Some(0xD6u8),
            0x25CAu32 => Some(0xD7u8),
            0x00FFu32 => Some(0xD8u8),
            0x0178u32 => Some(0xD9u8),
            0x2044u32 => Some(0xDAu8),
            0x20ACu32 => Some(0xDBu8),
            0x2039u32 => Some(0xDCu8),
            0x203Au32 => Some(0xDDu8),
            0xFB01u32 => Some(0xDEu8),
            0xFB02u32 => Some(0xDFu8),
            0x2021u32 => Some(0xE0u8),
            0x00B7u32 => Some(0xE1u8),
            0x201Au32 => Some(0xE2u8),
            0x201Eu32 => Some(0xE3u8),
            0x2030u32 => Some(0xE4u8),
            0x00C2u32 => Some(0xE5u8),
            0x00CAu32 => Some(0xE6u8),
            0x00C1u32 => Some(0xE7u8),
            0x00CBu32 => Some(0xE8u8),
            0x00C8u32 => Some(0xE9u8),
            0x00CDu32 => Some(0xEAu8),
            0x00CEu32 => Some(0xEBu8),
            0x00CFu32 => Some(0xECu8),
            0x00CCu32 => Some(0xEDu8),
            0x00D3u32 => Some(0xEEu8),
            0x00D4u32 => Some(0xEFu8),
            0xF8FFu32 => Some(0xF0u8),
            0x00D2u32 => Some(0xF1u8),
            0x00DAu32 => Some(0xF2u8),
            0x00DBu32 => Some(0xF3u8),
            0x00D9u32 => Some(0xF4u8),
            0x0131u32 => Some(0xF5u8),
            0x02C6u32 => Some(0xF6u8),
            0x02DCu32 => Some(0xF7u8),
            0x00AFu32 => Some(0xF8u8),
            0x02D8u32 => Some(0xF9u8),
            0x02D9u32 => Some(0xFAu8),
            0x02DAu32 => Some(0xFBu8),
            0x00B8u32 => Some(0xFCu8),
            0x02DDu32 => Some(0xFDu8),
            0x02DBu32 => Some(0xFEu8),
            0x02C7u32 => Some(0xFFu8),
            _ => None,
        }
    }
}

/// The Mac Roman byte of a character (see `mac_roman_encode`).
pub fn utf8_char_to_mac_roman(ch: char) -> (r: Option<u8>)
    ensures
        r == mac_roman_encode(ch as u32),
{
    let cp = ch as u32;
    if cp < 0x80 {
        return Some(cp as u8);
    }
    match cp {
        0x00C4 => Some(0x80u8),
        0x00C5 => Some(0x81u8),
        0x00C7 => Some(0x82u8),
        0x00C9 => Some(0x83u8),
        0x00D1 => Some(0x84u8),
        0x00D6 => Some(0x85u8),
        0x00DC => Some(0x86u8),
        0x00E1 => Some(0x87u8),
        0x00E0 => Some(0x88u8),
        0x00E2 => Some(0x89u8),
        0x00E4 => Some(0x8Au8),
        0x00E3 => Some(0x8Bu8),
        0x00E5 => Some(0x8Cu8),
        0x00E7 => Some(0x8Du8),
        0x00E9 => Some(0x8Eu8),
        0x00E8 => Some(0x8Fu8),
        0x00EA => Some(0x90u8),
        0x00EB => Some(0x91u8),
        0x00ED => Some(0x92u8),
        0x00EC => Some(0x93u8),
        0x00EE => Some(0x94u8),
        0x00EF => Some(0x95u8),
        0x00F1 => Some(0x96u8),
        0x00F3 => Some(0x97u8),
        0x00F2 => Some(0x98u8),
        0x00F4 => Some(0x99u8),
        0x00F6 => Some(0x9Au8),
        0x00F5 => Some(0x9Bu8),
        0x00FA => Some(0x9Cu8),
        0x00F9 => Some(0x9Du8),
        0x00FB => Some(0x9Eu8),
        0x00FC => Some(0x9Fu8),
        0x2020 => Some(0xA0u8),
        0x00B0 => Some(0xA1u8),
        0x00A2 => Some(0xA2u8),
        0x00A3 => Some(0xA3u8),
        0x00A7 => Some(0xA4u8),
        0x2022 => Some(0xA5u8),
        0x00B6 => Some(0xA6u8),
        0x00DF => Some(0xA7u8),
        0x00AE => Some(0xA8u8),
        0x00A9 => Some(0xA9u8),
        0x2122 => Some(0xAAu8),
        0x00B4 => Some(0xABu8),
        0x00A8 => Some(0xACu8),
        0x2260 => Some(0xADu8),
        0x00C6 => Some(0xAEu8),
        0x00D8 => Some(0xAFu8),
        0x221E => Some(0xB0u8),
        0x00B1 => Some(0xB1u8),
        0x2264 => Some(0xB2u8),
        0x2265 => Some(0xB3u8),
        0x00A5 => Some(0xB4u8),
        0x00B5 => Some(0xB5u8),
        0x2202 => Some(0xB6u8),
        0x2211 => Some(0xB7u8),
        0x220F => Some(0xB8u8),
        0x03C0 => Some(0xB9u8),
        0x222B => Some(0xBAu8),
        0x00AA => Some(0xBBu8),
        0x00BA => Some(0xBCu8),
        0x03A9 => Some(0xBDu8),
        0x2126 => Some(0xBDu8),
        0x00E6 => Some(0xBEu8),
        0x00F8 => Some(0xBFu8),
        0x00BF => Some(0xC0u8),
        0x00A1 => Some(0xC1u8),
        0x00AC => Some(0xC2u8),
        0x221A => Some(0xC3u8),
        0x0192 => Some(0xC4u8),
        0x2248 => Some(0xC5u8),
        0x2206 => Some(0xC6u8),
        0x00AB => Some(0xC7u8),
        0x00BB => Some(0xC8u8),
        0x2026 => Some(0xC9u8),
        0x00A0 => Some(0xCAu8),
        0x00C0 => Some(0xCBu8),
        0x00C3 => Some(0xCCu8),
        0x00D5 => Some(0xCDu8),
        0x0152 => Some(0xCEu8),
        0x0153 => Some(0xCFu8),
        0x2013 => Some(0xD0u8),
        0x2014 => Some(0xD1u8),
        0x201C => Some(0xD2u8),
        0x201D => Some(0xD3u8),
        0x2018 => Some(0xD4u8),
        0x2019 => Some(0xD5u8),
        0x00F7 => Some(0xD6u8),
        0x25CA => Some(0xD7u8),
        0x00FF => Some(0xD8u8),
        0x0178 => Some(0xD9u8),
        0x2044 => Some(0xDAu8),
        0x20AC => Some(0xDBu8),
        0x2039 => Some(0xDCu8),
        0x203A => Some(0xDDu8),
        0xFB01 => Some(0xDEu8),
        0xFB02 => Some(0xDFu8),
        0x2021 => Some(0xE0u8),
        0x00B7 => Some(0xE1u8),
        0x201A => Some(0xE2u8),
        0x201E => Some(0xE3u8),
        0x2030 => Some(0xE4u8),
        0x00C2 => Some(0xE5u8),
        0x00CA => Some(0xE6u8),
        0x00C1 => Some(0xE7u8),
        0x00CB => Some(0xE8u8),
        0x00C8 => Some(0xE9u8),
        0x00CD => Some(0xEAu8),
        0x00CE => Some(0xEBu8),
        0x00CF => Some(0xECu8),
        0x00CC => Some(0xEDu8),
        0x00D3 => Some(0xEEu8),
        0x00D4 => Some(0xEFu8),
        0xF8FF => Some(0xF0u8),
        0x00D2 => Some(0xF1u8),
        0x00DA => Some(0xF2u8),
        0x00DB => Some(0xF3u8),
        0x00D9 => Some(0xF4u8),
        0x0131 => Some(0xF5u8),
        0x02C6 => Some(0xF6u8),
        0x02DC => Some(0xF7u8),
        0x00AF => Some(0xF8u8),
        0x02D8 => Some(0xF9u8),
        0x02D9 => Some(0xFAu8),
        0x02DA => Some(0xFBu8),
        0x00B8 => Some(0xFCu8),
        0x02DD => Some(0xFDu8),
        0x02DB => Some(0xFEu8),
        0x02C7 => Some(0xFFu8),
        _ => None,
    }
}

/// Encoding undoes decoding: every Mac Roman byte, decoded to a code point,
/// encodes back to itself.
pub proof fn lemma_mac_roman_roundtrip(b: u8)
    ensures
        mac_roman_encode(mac_roman_decode(b)) == Some(b),
{
}

/// Decoding undoes encoding: a code point that has a Mac Roman byte is the
/// decoding of that byte, so no two code points share a byte; the one
/// exception is the ohm sign U+2126, which shares 0xBD with the Greek
/// capital omega it is equivalent to.
pub proof fn lemma_mac_roman_encode_inverse(cp: u32)
    requires
        cp != 0x2126,
    ensures
        mac_roman_encode(cp) matches Some(b) ==> mac_roman_decode(b) == cp,
{
}

/// SMuFL code point of a Sonata music font character code; none for
/// spaces and characters without an equivalent.
pub open spec fn spec_sonata_smufl(ch: u8) -> Option<u32> {
    match ch {
        0x26u8 => Some(0xE050u32),
        0x42u8 => Some(0xE05Cu32),
        0x3Fu8 => Some(0xE062u32),
        0x2Fu8 => Some(0xE069u32),
        0x23u8 => Some(0xE262u32),
        0x62u8 => Some(0xE260u32),
        0x6Eu8 => Some(0xE261u32),
        0xBAu8 => Some(0xE264u32),
        0xDCu8 => Some(0xE263u32),
        0x63u8 => Some(0xE08Au32),
        0x43u8 => Some(0xE08Bu32),
        0xDDu8 => Some(0xE0A0u32),
        0x77u8 => Some(0xE0A2u32),
        0xFAu8 => Some(0xE0A3u32),
        0xCFu8 => Some(0xE0A4u32),
        0xC0u8 => Some(0xE0A9u32),
        0x4Fu8 => Some(0xE0D3u32),
        0xADu8 => Some(0xE0B9u32),
        0xD0u8 => Some(0xE0B3u32),
        0xE1u8 => Some(0xE0D3u32),
        0xE2u8 => Some(0xE0DBu32),
        0x6Au8 => Some(0xE240u32),
        0x4Au8 => Some(0xE241u32),
        0x6Bu8 => Some(0xE242u32),
        0x4Bu8 => Some(0xE243u32),
        0xFBu8 => Some(0xE250u32),
        0xF0u8 => Some(0xE251u32),
        0x2Eu8 => Some(0xE1E7u32),
        0x55u8 => Some(0xE4C0u32),
        0x75u8 => Some(0xE4C1u32),
        0x60u8 => Some(0xE566u32),
        0x3Eu8 => Some(0xE4A0u32),
        0x5Eu8 => Some(0xE4ACu32),
        0x76u8 => Some(0xE4ADu32),
        0xAEu8 => Some(0xE4A2u32),
        0x27u8 => Some(0xE4A3u32),
        0x2Du8 => Some(0xE4A4u32),
        0x4Du8 => Some(0xE56Cu32),
        0x6Du8 => Some(0xE56Du32),
        0x54u8 => Some(0xE567u32),
        0x2Bu8 => Some(0xE4AFu32),
        0x6Fu8 => Some(0xE4ABu32),
        0xB2u8 => Some(0xE612u32),
        0xB3u8 => Some(0xE610u32),
        0xACu8 => Some(0xE4AEu32),
        0xE8u8 => Some(0xE4AFu32),
        0xB5u8 => Some(0xE56Eu32),
        0xB8u8 => Some(0xE52Au32),
        0xB9u8 => Some(0xE52Bu32),
        0x70u8 => Some(0xE520u32),
        0x50u8 => Some(0xE52Cu32),
        0x46u8 => Some(0xE52Du32),
        0x66u8 => Some(0xE522u32),
        0xC4u8 => Some(0xE52Fu32),
        0xECu8 => Some(0xE530u32),
        0x53u8 => Some(0xE539u32),
        0x7Bu8 => Some(0xE043u32),
        0xC2u8 => Some(0xE003u32),
        0x4Cu8 => Some(0xE004u32),
        0xA7u8 => Some(0xE000u32),
        0xEAu8 => Some(0xE000u32),
        0x67u8 => Some(0xE63Cu32),
        0x28u8 => Some(0xE26Au32),
        0x29u8 => Some(0xE26Bu32),
        0x68u8 => Some(0xE1D3u32),
        0x71u8 => Some(0xE1D5u32),
        0x65u8 => Some(0xE1D7u32),
        0x78u8 => Some(0xE1D9u32),
        0x72u8 => Some(0xE1DBu32),
        0x74u8 => Some(0xE1DDu32),
        0x79u8 => Some(0xE1DFu32),
        0x47u8 => Some(0xE560u32),
        0x25u8 => Some(0xE047u32),
        0x9Eu8 => Some(0xE048u32),
        0xDEu8 => Some(0xE048u32),
        0xB6u8 => Some(0xE650u32),
        0xE3u8 => Some(0xE4E2u32),
        0xB7u8 => Some(0xE4E3u32),
        0xEEu8 => Some(0xE4E4u32),
        0xCEu8 => Some(0xE4E5u32),
        0xE4u8 => Some(0xE4E6u32),
        0xC5u8 => Some(0xE4E7u32),
        0xA8u8 => Some(0xE4E8u32),
        0xF4u8 => Some(0xE4E9u32),
        0xE5u8 => Some(0xE4EAu32),
        _ => None,
    }
}

/// SMuFL code point of a Sonata character code (see `spec_sonata_smufl`).
pub fn sonata_char_to_smufl(ch: u8) -> (r: Option<u32>)
    ensures
        r == spec_sonata_smufl(ch),
{
    match ch {
        0x26 => Some(0xE050),
        0x42 => Some(0xE05C),
        0x3F => Some(0xE062),
        0x2F => Some(0xE069),
        0x23 => Some(0xE262),
        0x62 => Some(0xE260),
        0x6E => Some(0xE261),
        0xBA => Some(0xE264),
        0xDC => Some(0xE263),
        0x63 => Some(0xE08A),
        0x43 => Some(0xE08B),
        0xDD => Some(0xE0A0),
        0x77 => Some(0xE0A2),
        0xFA => Some(0xE0A3),
        0xCF => Some(0xE0A4),
        0xC0 => Some(0xE0A9),
        0x4F => Some(0xE0D3),
        0xAD => Some(0xE0B9),
        0xD0 => Some(0xE0B3),
        0xE1 => Some(0xE0D3),
        0xE2 => Some(0xE0DB),
        0x6A => Some(0xE240),
        0x4A => Some(0xE241),
        0x6B => Some(0xE242),
        0x4B => Some(0xE243),
        0xFB => Some(0xE250),
        0xF0 => Some(0xE251),
        0x2E => Some(0xE1E7),
        0x55 => Some(0xE4C0),
        0x75 => Some(0xE4C1),
        0x60 => Some(0xE566),
        0x3E => Some(0xE4A0),
        0x5E => Some(0xE4AC),
        0x76 => Some(0xE4AD),
        0xAE => Some(0xE4A2),
        0x27 => Some(0xE4A3),
        0x2D => Some(0xE4A4),
        0x4D => Some(0xE56C),
        0x6D => Some(0xE56D),
        0x54 => Some(0xE567),
        0x2B => Some(0xE4AF),
        0x6F => Some(0xE4AB),
        0xB2 => Some(0xE612),
        0xB3 => Some(0xE610),
        0xAC => Some(0xE4AE),
        0xE8 => Some(0xE4AF),
        0xB5 => Some(0xE56E),
        0xB8 => Some(0xE52A),
        0xB9 => Some(0xE52B),
        0x70 => Some(0xE520),
        0x50 => Some(0xE52C),
        0x46 => Some(0xE52D),
        0x66 => Some(0xE522),
        0xC4 => Some(0xE52F),
        0xEC => Some(0xE530),
        0x53 => Some(0xE539),
        0x7B => Some(0xE043),
        0xC2 => Some(0xE003),
        0x4C => Some(0xE004),
        0xA7 => Some(0xE000),
        0xEA => Some(0xE000),
        0x67 => Some(0xE63C),
        0x28 => Some(0xE26A),
        0x29 => Some(0xE26B),
        0x68 => Some(0xE1D3),
        0x71 => Some(0xE1D5),
        0x65 => Some(0xE1D7),
        0x78 => Some(0xE1D9),
        0x72 => Some(0xE1DB),
        0x74 => Some(0xE1DD),
        0x79 => Some(0xE1DF),
        0x47 => Some(0xE560),
        0x25 => Some(0xE047),
        0x9E => Some(0xE048),
        0xDE => Some(0xE048),
        0xB6 => Some(0xE650),
        0xE3 => Some(0xE4E2),
        0xB7 => Some(0xE4E3),
        0xEE => Some(0xE4E4),
        0xCE => Some(0xE4E5),
        0xE4 => Some(0xE4E6),
        0xC5 => Some(0xE4E7),
        0xA8 => Some(0xE4E8),
        0xF4 => Some(0xE4E9),
        0xE5 => Some(0xE4EA),
        _ => None,
    }
}

/// SMuFL code point of a character of music-font text: its Mac Roman byte
/// mapped through the Sonata table.
pub fn utf8_music_char_to_smufl(ch: char) -> (r: Option<u32>)
    ensures
        match mac_roman_encode(ch as u32) {
            Some(b) => r == spec_sonata_smufl(b),
            None => r is None,
        },
{
    match utf8_char_to_mac_roman(ch) {
        Some(b) => sonata_char_to_smufl(b),
        None => None,
    }
}

} // verus!
