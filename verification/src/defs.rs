//! General global definitions: object types, enumerations, constants and the
//! style functions that size notation elements relative to the staff.
use vstd::prelude::*;

verus! {

// ----------------------------------------------------------------------------
// Object types
// ----------------------------------------------------------------------------

/// Object type: document header.
pub const HEADER_TYPE: u8 = 0;
/// Object type: document tail.
pub const TAIL_TYPE: u8 = 1;
/// Object type: note/rest Sync.
pub const SYNC_TYPE: u8 = 2;
/// Object type: repeat end.
pub const RPTEND_TYPE: u8 = 3;
/// Object type: page.
pub const PAGE_TYPE: u8 = 4;
/// Object type: system.
pub const SYSTEM_TYPE: u8 = 5;
/// Object type: staff.
pub const STAFF_TYPE: u8 = 6;
/// Object type: measure.
pub const MEASURE_TYPE: u8 = 7;
/// Object type: clef.
pub const CLEF_TYPE: u8 = 8;
/// Object type: key signature.
pub const KEYSIG_TYPE: u8 = 9;
/// Object type: time signature.
pub const TIMESIG_TYPE: u8 = 10;
/// Object type: beamset.
pub const BEAMSET_TYPE: u8 = 11;
/// Object type: connect (brace/bracket).
pub const CONNECT_TYPE: u8 = 12;
/// Object type: dynamic.
pub const DYNAMIC_TYPE: u8 = 13;
/// Object type: note modifier.
pub const MODNR_TYPE: u8 = 14;
/// Object type: graphic.
pub const GRAPHIC_TYPE: u8 = 15;
/// Object type: ottava.
pub const OTTAVA_TYPE: u8 = 16;
/// Object type: slur or set of ties.
pub const SLUR_TYPE: u8 = 17;
/// Object type: tuplet.
pub const TUPLET_TYPE: u8 = 18;
/// Object type: grace note Sync.
pub const GRSYNC_TYPE: u8 = 19;
/// Object type: tempo.
pub const TEMPO_TYPE: u8 = 20;
/// Object type: spacer.
pub const SPACER_TYPE: u8 = 21;
/// Object type: ending.
pub const ENDING_TYPE: u8 = 22;
/// Object type: pseudomeasure.
pub const PSMEAS_TYPE: u8 = 23;
/// Object heap type (must be last heap).
pub const OBJ_TYPE: u8 = 24;
/// First object type.
pub const LOW_TYPE: u8 = 0;
/// One past the last object type.
pub const HIGH_TYPE: u8 = 25;

// ----------------------------------------------------------------------------
// Font style indices
// ----------------------------------------------------------------------------

/// Font style: this item only.
pub const FONT_THISITEMONLY: u8 = 0;
/// Font style: measure numbers.
pub const FONT_MN: u8 = 1;
/// Font style: part names.
pub const FONT_PN: u8 = 2;
/// Font style: regular music text.
pub const FONT_RM: u8 = 3;
/// Font style: regular 1.
pub const FONT_R1: u8 = 4;
/// Font style: regular 2.
pub const FONT_R2: u8 = 5;
/// Font style: regular 3.
pub const FONT_R3: u8 = 6;
/// Font style: regular 4.
pub const FONT_R4: u8 = 7;
/// Font style: tempo marks.
pub const FONT_TM: u8 = 8;
/// Font style: chord symbols.
pub const FONT_CS: u8 = 9;
/// Font style: page numbers.
pub const FONT_PG: u8 = 10;
/// Font style: regular 5.
pub const FONT_R5: u8 = 11;
/// Font style: regular 6.
pub const FONT_R6: u8 = 12;
/// Font style: regular 7.
pub const FONT_R7: u8 = 13;
/// Font style: regular 8.
pub const FONT_R8: u8 = 14;
/// Font style: regular 9.
pub const FONT_R9: u8 = 15;

// ----------------------------------------------------------------------------
// Duration codes
// ----------------------------------------------------------------------------

/// Duration code: whole-measure rest.
pub const WHOLEMR_L_DUR: i8 = -1;
/// Duration code: unknown CMN value.
pub const UNKNOWN_L_DUR: i8 = 0;
/// Duration code: breve.
pub const BREVE_L_DUR: i8 = 1;
/// Duration code: whole note/rest.
pub const WHOLE_L_DUR: i8 = 2;
/// Duration code: half note/rest.
pub const HALF_L_DUR: i8 = 3;
/// Duration code: quarter note/rest.
pub const QTR_L_DUR: i8 = 4;
/// Duration code: eighth note/rest.
pub const EIGHTH_L_DUR: i8 = 5;
/// Duration code: 16th note/rest.
pub const SIXTEENTH_L_DUR: i8 = 6;
/// Duration code: 32nd note/rest.
pub const THIRTY2ND_L_DUR: i8 = 7;
/// Duration code: 64th note/rest.
pub const SIXTY4TH_L_DUR: i8 = 8;
/// Duration code: 128th note/rest.
pub const ONE28TH_L_DUR: i8 = 9;
/// Duration code: none (illegal).
pub const NO_L_DUR: i8 = 10;
/// Last duration code.
pub const LAST_L_DUR: i8 = 10;

// ----------------------------------------------------------------------------
// Accidentals
// ----------------------------------------------------------------------------

/// Accidental: double flat.
pub const AC_DBLFLAT: u8 = 1;
/// Accidental: flat.
pub const AC_FLAT: u8 = 2;
/// Accidental: natural.
pub const AC_NATURAL: u8 = 3;
/// Accidental: sharp.
pub const AC_SHARP: u8 = 4;
/// Accidental: double sharp.
pub const AC_DBLSHARP: u8 = 5;

// ----------------------------------------------------------------------------
// Clef types
// ----------------------------------------------------------------------------

/// Clef: treble 8va.
pub const TREBLE8_CLEF: u8 = 1;
/// Clef: French violin.
pub const FRVIOLIN_CLEF: u8 = 2;
/// Clef: treble.
pub const TREBLE_CLEF: u8 = 3;
/// Clef: soprano.
pub const SOPRANO_CLEF: u8 = 4;
/// Clef: mezzo-soprano.
pub const MZSOPRANO_CLEF: u8 = 5;
/// Clef: alto.
pub const ALTO_CLEF: u8 = 6;
/// Clef: treble-tenor.
pub const TRTENOR_CLEF: u8 = 7;
/// Clef: tenor.
pub const TENOR_CLEF: u8 = 8;
/// Clef: baritone.
pub const BARITONE_CLEF: u8 = 9;
/// Clef: bass.
pub const BASS_CLEF: u8 = 10;
/// Clef: bass 8vb.
pub const BASS8B_CLEF: u8 = 11;
/// Clef: percussion.
pub const PERC_CLEF: u8 = 12;
/// Lowest clef type.
pub const LOW_CLEF: u8 = 1;
/// Highest clef type.
pub const HIGH_CLEF: u8 = 12;

// ----------------------------------------------------------------------------
// Barline types
// ----------------------------------------------------------------------------

/// Barline: single.
pub const BAR_SINGLE: u8 = 1;
/// Barline: double.
pub const BAR_DOUBLE: u8 = 2;
/// Barline: final double.
pub const BAR_FINALDBL: u8 = 3;
/// Barline: heavy double.
pub const BAR_HEAVYDBL: u8 = 4;
/// Barline: repeat left.
pub const BAR_RPT_L: u8 = 5;
/// Barline: repeat right.
pub const BAR_RPT_R: u8 = 6;
/// Barline: repeat both sides.
pub const BAR_RPT_LR: u8 = 7;
/// Last barline type.
pub const BAR_LAST: u8 = 7;

// ----------------------------------------------------------------------------
// Time signature types
// ----------------------------------------------------------------------------

/// Time signature: numerator over denominator.
pub const N_OVER_D: i8 = 1;
/// Time signature: common time.
pub const C_TIME: i8 = 2;
/// Time signature: cut time.
pub const CUT_TIME: i8 = 3;
/// Time signature: numerator only.
pub const N_ONLY: i8 = 4;
/// Time signature: zero.
pub const ZERO_TIME: i8 = 5;
/// Time signature: numerator over quarter note.
pub const N_OVER_QUARTER: i8 = 6;
/// Time signature: numerator over eighth note.
pub const N_OVER_EIGHTH: i8 = 7;
/// Time signature: numerator over half note.
pub const N_OVER_HALF: i8 = 8;
/// Time signature: numerator over dotted quarter.
pub const N_OVER_DOTTEDQUARTER: i8 = 9;
/// Time signature: numerator over dotted eighth.
pub const N_OVER_DOTTEDEIGHTH: i8 = 10;
/// Lowest time signature type.
pub const LOW_TSTYPE: i8 = 1;
/// Highest time signature type.
pub const HIGH_TSTYPE: i8 = 10;

// ----------------------------------------------------------------------------
// Dynamic types
// ----------------------------------------------------------------------------

/// Dynamic: pppp.
pub const PPPP_DYNAM: u8 = 1;
/// Dynamic: ppp.
pub const PPP_DYNAM: u8 = 2;
/// Dynamic: pp.
pub const PP_DYNAM: u8 = 3;
/// Dynamic: p.
pub const P_DYNAM: u8 = 4;
/// Dynamic: mp.
pub const MP_DYNAM: u8 = 5;
/// Dynamic: mf.
pub const MF_DYNAM: u8 = 6;
/// Dynamic: f.
pub const F_DYNAM: u8 = 7;
/// Dynamic: ff.
pub const FF_DYNAM: u8 = 8;
/// Dynamic: fff.
pub const FFF_DYNAM: u8 = 9;
/// Dynamic: ffff.
pub const FFFF_DYNAM: u8 = 10;
/// First relative dynamic.
pub const FIRSTREL_DYNAM: u8 = 11;
/// Dynamic: piu p.
pub const PIUP_DYNAM: u8 = 11;
/// Dynamic: meno p.
pub const MENOP_DYNAM: u8 = 12;
/// Dynamic: meno f.
pub const MENOF_DYNAM: u8 = 13;
/// Dynamic: piu f.
pub const PIUF_DYNAM: u8 = 14;
/// First sf dynamic.
pub const FIRSTSF_DYNAM: u8 = 15;
/// Dynamic: sf.
pub const SF_DYNAM: u8 = 15;
/// Dynamic: fz.
pub const FZ_DYNAM: u8 = 16;
/// Dynamic: sfz.
pub const SFZ_DYNAM: u8 = 17;
/// Dynamic: rf.
pub const RF_DYNAM: u8 = 18;
/// Dynamic: rfz.
pub const RFZ_DYNAM: u8 = 19;
/// Dynamic: fp.
pub const FP_DYNAM: u8 = 20;
/// Dynamic: sfp.
pub const SFP_DYNAM: u8 = 21;
/// First hairpin dynamic.
pub const FIRSTHAIRPIN_DYNAM: u8 = 22;
/// Dynamic: diminuendo hairpin.
pub const DIM_DYNAM: u8 = 22;
/// Dynamic: crescendo hairpin.
pub const CRESC_DYNAM: u8 = 23;

// ----------------------------------------------------------------------------
// Justification types
// ----------------------------------------------------------------------------

/// Justification: independent, totally ordered.
pub const J_IT: u8 = 1;
/// Justification: independent, partially ordered.
pub const J_IP: u8 = 2;
/// Justification: dependent.
pub const J_D: u8 = 3;
/// Structural object, no justification type.
pub const J_STRUC: u8 = 4;

// ----------------------------------------------------------------------------
// Special constants
// ----------------------------------------------------------------------------

/// No link.
pub const NILINK: u16 = 0;
/// Standard number of lines in a staff.
pub const STFLINES: u8 = 5;
/// Height of a standard staff in half-spaces.
pub const STFHALFSP: u8 = 8;
/// Resolution factor for justification routines.
pub const RESFACTOR: i32 = 50;
/// Points per inch (approximately).
pub const POINTSPERIN: u8 = 72;
/// Play-duration code for the shortest note.
pub const PDURUNIT: i16 = 15;
/// Staff half-space offset in the accidental table.
pub const ACCTABLE_OFF: u8 = 30;
/// A very large signed long.
pub const BIGNUM: i32 = 1999999999;
/// Any type wildcard.
pub const ANYTYPE: i8 = -1;
/// Any subtype wildcard.
pub const ANYSUBTYPE: i8 = -1;
/// Any voice/staff wildcard.
pub const ANYONE: i8 = -1;
/// No one.
pub const NOONE: i8 = -2;
/// No match.
pub const NOMATCH: i8 = -1;

// ----------------------------------------------------------------------------
// Default values
// ----------------------------------------------------------------------------

/// Default clef type for new staves.
pub const DFLT_CLEF: u8 = 3;
/// Default number of key signature items.
pub const DFLT_NKSITEMS: u8 = 0;
/// Default time signature type.
pub const DFLT_TSTYPE: i8 = 1;
/// Default time signature numerator.
pub const DFLT_NUMER: i8 = 4;
/// Default time signature denominator.
pub const DFLT_DENOM: i8 = 4;
/// Default dynamic marking for new staves.
pub const DFLT_DYNAMIC: u8 = 6;
/// Default space table number.
pub const DFLT_SPACETABLE: u8 = 0;
/// Default note accidental offset.
pub const DFLT_XMOVEACC: i8 = 5;

// ----------------------------------------------------------------------------
// Graphic justification
// ----------------------------------------------------------------------------

/// Graphic text justification: left.
pub const GR_JUST_LEFT: u8 = 1;
/// Graphic text justification: right.
pub const GR_JUST_RIGHT: u8 = 2;
/// Graphic text justification: both.
pub const GR_JUST_BOTH: u8 = 3;
/// Graphic text justification: centered.
pub const GR_JUST_CENTER: u8 = 4;

// ----------------------------------------------------------------------------
// Style functions
// ----------------------------------------------------------------------------

/// Truncating integer division `a / b` (rounding toward zero), as Rust
/// computes it, for a nonzero divisor of either sign.
pub open spec fn trunc_div(a: int, b: int) -> int
    recommends
        b != 0,
{
    if a >= 0 {
        a / b
    } else {
        -((-a) / b)
    }
}

/// A truncating quotient never exceeds the dividend in magnitude.
pub proof fn lemma_trunc_div_bounded(a: int, b: int)
    requires
        b != 0,
    ensures
        -(if a >= 0 { a } else { -a }) <= trunc_div(a, b) <= (if a >= 0 { a } else { -a }),
{
    if a >= 0 {
        if b > 0 {
            assert(0 <= a / b <= a) by (nonlinear_arith)
                requires
                    a >= 0,
                    b > 0,
            ;
        } else {
            assert(-a <= a / b <= 0) by (nonlinear_arith)
                requires
                    a >= 0,
                    b < 0,
            ;
        }
    } else {
        if b > 0 {
            assert(0 <= (-a) / b <= -a) by (nonlinear_arith)
                requires
                    -a >= 0,
                    b > 0,
            ;
        } else {
            assert(a <= (-a) / b <= 0) by (nonlinear_arith)
                requires
                    -a >= 0,
                    b < 0,
            ;
        }
    }
}

/// Width of common (beamable) note heads: `9 * ln_sp / 8`.
pub fn head_width(ln_sp: i16) -> (r: i16)
    requires
        -3640 <= ln_sp <= 3640,
    ensures
        r == trunc_div(9 * ln_sp, 8),
{
    9 * ln_sp / 8
}

/// Vertical distance between flags: `3 * ln_sp / 4`.
pub fn flag_leading(ln_sp: i16) -> (r: i16)
    requires
        -10922 <= ln_sp <= 10922,
    ensures
        r == trunc_div(3 * ln_sp, 4),
{
    3 * ln_sp / 4
}

/// Size of "small" symbols: `3 * size / 4`.
pub fn small_size(size: i16) -> (r: i16)
    requires
        -10922 <= size <= 10922,
    ensures
        r == trunc_div(3 * size, 4),
{
    3 * size / 4
}

/// Size of grace notes: `7 * size / 10`.
pub fn grace_size(size: i16) -> (r: i16)
    requires
        -4681 <= size <= 4681,
    ensures
        r == trunc_div(7 * size, 10),
{
    7 * size / 10
}

/// Size of metronome marks: `8 * size / 10`.
pub fn metro_size(size: i16) -> (r: i16)
    requires
        -4096 <= size <= 4095,
    ensures
        r == trunc_div(8 * size, 10),
{
    8 * size / 10
}

/// Length of a ledger line on the notehead's side of the stem: `12 * ln_sp / 8`.
pub fn ledger_len(ln_sp: i16) -> (r: i16)
    requires
        -2730 <= ln_sp <= 2730,
    ensures
        r == trunc_div(12 * ln_sp, 8),
{
    12 * ln_sp / 8
}

/// Length of a ledger line on the side away from the notehead: `3 * ln_sp / 8`.
pub fn ledger_other_len(ln_sp: i16) -> (r: i16)
    requires
        -10922 <= ln_sp <= 10922,
    ensures
        r == trunc_div(3 * ln_sp, 8),
{
    3 * ln_sp / 8
}

/// Fractional beam length: one line space.
pub fn frac_beam_width(ln_sp: i16) -> (r: i16)
    ensures
        r == ln_sp,
{
    ln_sp
}

/// Thickness of tuplet bracket lines: `6 * ln_sp / 50`.
pub fn tuple_brackthick(ln_sp: i16) -> (r: i16)
    requires
        -5461 <= ln_sp <= 5461,
    ensures
        r == trunc_div(6 * ln_sp, 50),
{
    6 * ln_sp / 50
}

/// Thickness of dotted ottava lines: `6 * ln_sp / 50`.
pub fn ottava_thick(ln_sp: i16) -> (r: i16)
    requires
        -5461 <= ln_sp <= 5461,
    ensures
        r == trunc_div(6 * ln_sp, 50),
{
    6 * ln_sp / 50
}

/// Length of the vertical ottava cutoff line: one line space.
pub fn ottava_cutofflen(ln_sp: i16) -> (r: i16)
    ensures
        r == ln_sp,
{
    ln_sp
}

/// Thickness of ending lines: `6 * ln_sp / 50`.
pub fn ending_thick(ln_sp: i16) -> (r: i16)
    requires
        -5461 <= ln_sp <= 5461,
    ensures
        r == trunc_div(6 * ln_sp, 50),
{
    6 * ln_sp / 50
}

/// Length of an ending's vertical cutoff line: two line spaces.
pub fn ending_cutofflen(ln_sp: i16) -> (r: i16)
    requires
        -16384 <= ln_sp <= 16383,
    ensures
        r == 2 * ln_sp,
{
    2 * ln_sp
}

} // verus!
