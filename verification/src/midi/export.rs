//! MIDI export: converts a score to Standard MIDI File (SMF) bytes.
//!
//! Timing is in play-duration ticks, 480 per quarter note.
use vstd::prelude::*;
use crate::basic_types::{KsInfo, Link, PartInfo};
use crate::score::{ANote, InterpretedObject, InterpretedScore, ObjData};

verus! {

/// Ticks per quarter note (the SMF division).
pub const DFLT_BEATDUR: u32 = 480;

/// Ticks of the shortest representable duration (a 128th note).
pub const PDURUNIT: u32 = 15;

/// Ticks per duration code (index 1 = breve ... 9 = 128th; index 0 unused).
pub open spec fn midi_l2p(i: int) -> int {
    if i == 1 { 3840 }
    else if i == 2 { 1920 }
    else if i == 3 { 960 }
    else if i == 4 { 480 }
    else if i == 5 { 240 }
    else if i == 6 { 120 }
    else if i == 7 { 60 }
    else if i == 8 { 30 }
    else if i == 9 { 15 }
    else { 0 }
}

/// The duration table: each entry after the breve is half the previous one.
pub fn get_l2p_durs() -> (r: [u32; 10])
    ensures
        forall|i: int| 0 <= i < 10 ==> #[trigger] r@[i] == midi_l2p(i),
{
    [0, 3840, 1920, 960, 480, 240, 120, 60, 30, 15]
}

/// Microseconds per quarter note for a tempo in beats per minute:
/// `60_000_000 / bpm`, or 500000 (120 BPM) when `bpm` is 0.
pub open spec fn spec_bpm_us(bpm: u32) -> int {
    if bpm == 0 { 500000 } else { 60_000_000int / (bpm as int) }
}

/// Microseconds per quarter note for a tempo (see `spec_bpm_us`).
pub fn bpm_to_microseconds(bpm: u32) -> (r: u32)
    ensures
        r == spec_bpm_us(bpm),
{
    if bpm == 0 {
        return 500000;
    }
    60_000_000 / bpm
}

/// The MIDI sharps/flats count of a key signature: 0 when it has no items,
/// the item count when its first item is a sharp, minus the count otherwise.
pub open spec fn spec_midi_sf(ks_info: KsInfo) -> int {
    if ks_info.n_ks_items == 0 {
        0
    } else if ks_info.ks_item@[0].sharp != 0 {
        ks_info.n_ks_items as int
    } else {
        -(ks_info.n_ks_items as int)
    }
}

/// The count can be negated within a byte (not -128 items of flats).
pub open spec fn midi_sf_fits(ks_info: KsInfo) -> bool {
    ks_info.n_ks_items != i8::MIN || ks_info.ks_item@[0].sharp != 0
}

/// The MIDI sharps/flats count of a key signature (see `spec_midi_sf`).
pub fn ks_info_to_midi_sf(ks_info: &KsInfo) -> (r: i8)
    requires
        midi_sf_fits(*ks_info),
    ensures
        r == spec_midi_sf(*ks_info),
{
    if ks_info.n_ks_items == 0 {
        return 0;
    }
    let is_sharp = ks_info.ks_item[0].sharp != 0;
    if is_sharp {
        ks_info.n_ks_items
    } else {
        -ks_info.n_ks_items
    }
}

/// Velocity of each dynamic type (1..=23); entry 0 and the hairpins are 64.
pub open spec fn dynam2velo(i: int) -> int {
    if i == 1 { 20 }
    else if i == 2 { 32 }
    else if i == 3 { 45 }
    else if i == 4 { 64 }
    else if i == 5 { 80 }
    else if i == 6 { 96 }
    else if i == 7 { 112 }
    else if i == 8 { 120 }
    else if i == 9 { 126 }
    else if i == 10 { 127 }
    else if i == 11 { 90 }
    else if i == 12 { 70 }
    else if i == 13 { 72 }
    else if i == 14 { 92 }
    else if i == 15 { 115 }
    else if i == 16 { 116 }
    else if i == 17 { 118 }
    else if i == 18 { 117 }
    else if i == 19 { 119 }
    else if i == 20 { 100 }
    else if i == 21 { 110 }
    else { 64 }
}

/// The dynamic-to-velocity table.
pub fn get_dynam2velo() -> (r: [u8; 24])
    ensures
        forall|i: int| 0 <= i < 24 ==> #[trigger] r@[i] == dynam2velo(i),
{
    [64, 20, 32, 45, 64, 80, 96, 112, 120, 126, 127, 90, 70, 72, 92, 115, 116, 118, 117, 119, 100, 110, 64, 64]
}

/// MIDI velocity of a dynamic mark: the table entry for types 1..=21, and the
/// mezzo-forte velocity 96 for hairpins and invalid types.
pub open spec fn spec_dynamic_to_velocity(dynamic_type: int) -> int {
    if 1 <= dynamic_type < 22 { dynam2velo(dynamic_type) } else { 96 }
}

/// Convert a dynamic type to a MIDI velocity.
pub fn dynamic_to_velocity(dynamic_type: i8) -> (r: u8)
    ensures
        r == spec_dynamic_to_velocity(dynamic_type as int),
        1 <= r <= 127,
{
    let dynam2velo = get_dynam2velo();
    if !(1 <= dynamic_type && dynamic_type < 22) {
        return 96;
    }
    dynam2velo[dynamic_type as usize]
}

/// Ticks added by the dots `j..=n_dots` of a note with table index `code`:
/// each dot adds the entry one step shorter, never shorter than the 128th.
pub open spec fn midi_dots_sum(code: int, j: int, n_dots: int) -> int
    decreases n_dots + 1 - j,
{
    if j > n_dots {
        0
    } else {
        midi_l2p(if code + j <= 9 { code + j } else { 9 }) + midi_dots_sum(code, j + 1, n_dots)
    }
}

/// Duration code clamped to the table range 1..=9.
pub open spec fn clamp_code(dur_code: int) -> int {
    if dur_code < 1 { 1 } else if dur_code > 9 { 9 } else { dur_code }
}

/// Ticks of a note with a duration code (clamped to 1..=9) and dots.
pub open spec fn spec_code_to_ldur(dur_code: int, n_dots: int) -> int {
    midi_l2p(clamp_code(dur_code)) + midi_dots_sum(clamp_code(dur_code), 1, n_dots)
}

/// Convert a duration code and a number of dots to ticks: the clamped code's
/// duration plus one shorter duration per dot (never shorter than a 128th).
pub fn code_to_ldur(dur_code: u8, n_dots: u8) -> (r: u32)
    ensures
        r == spec_code_to_ldur(dur_code as int, n_dots as int),
{
    let l2p_durs = get_l2p_durs();
    let code: usize = if dur_code < 1 { 1 } else if dur_code > 9 { 9 } else { dur_code as usize };
    let mut note_dur: u32 = l2p_durs[code];
    let mut j: u16 = 1;
    while j <= n_dots as u16
        invariant
            1 <= j <= 256,
            1 <= code <= 9,
            code == clamp_code(dur_code as int),
            forall|i: int| 0 <= i < 10 ==> #[trigger] l2p_durs@[i] == midi_l2p(i),
            j as int - 1 <= n_dots as int,
            note_dur + midi_dots_sum(code as int, j as int, n_dots as int)
                == spec_code_to_ldur(dur_code as int, n_dots as int),
            note_dur <= 3840 * j,
        decreases n_dots as int + 1 - j as int,
    {
        let dot_code: usize = if code + (j as usize) <= 9 { code + (j as usize) } else { 9 };
        assert(midi_l2p(dot_code as int) <= 3840);
        note_dur = note_dur + l2p_durs[dot_code];
        j = j + 1;
    }
    note_dur
}

/// Final MIDI velocity: note velocity plus document offset plus the optional
/// part velocity, clamped to 1..=127 (0 is reserved for note-off).
pub fn calculate_velocity(on_velocity: u8, doc_velocity_offset: i8, part_velocity: Option<u8>) -> (r: u8)
    ensures
        ({
            let v = on_velocity as int + doc_velocity_offset as int + match part_velocity {
                Some(pv) => pv as int,
                None => 0,
            };
            r == if v < 1 { 1 } else if v > 127 { 127 } else { v }
        }),
{
    let mut velocity: i32 = (on_velocity as i32) + (doc_velocity_offset as i32);
    if let Some(pv) = part_velocity {
        velocity = velocity + pv as i32;
    }
    if velocity < 1 {
        1
    } else if velocity > 127 {
        127
    } else {
        velocity as u8
    }
}

/// Semitones above C of each letter name (C=0 ... B=6).
pub open spec fn letter_semitones(letter: int) -> int {
    if letter == 0 { 0 }
    else if letter == 1 { 2 }
    else if letter == 2 { 4 }
    else if letter == 3 { 5 }
    else if letter == 4 { 7 }
    else if letter == 5 { 9 }
    else { 11 }
}

/// MIDI note number of a pitch given in quarter-lines relative to middle C and
/// an accidental code (0 none, 1 double flat ... 3 natural ... 5 double sharp):
/// the half-line count (quarter-lines halved, truncated) gives a letter
/// (its remainder mod 7) and an octave (its floor division by 7).
pub open spec fn spec_yqpit_midi(yqpit: int, accidental: int) -> int {
    let half_lines = if yqpit >= 0 { yqpit / 2 } else { -((-yqpit) / 2) };
    let letter = half_lines % 7;
    let octave = half_lines / 7;
    let ac_offset = if accidental == 0 { 0 } else { accidental - 3 };
    60 + 12 * octave + letter_semitones(letter) + ac_offset
}

/// Convert a clef-independent pitch in quarter-lines to a MIDI note number,
/// or `None` when the result falls outside 0..=127.
pub fn yqpit_to_midi_note(yqpit: i8, accidental: i8) -> (r: Option<u8>)
    ensures
        ({
            let m = spec_yqpit_midi(yqpit as int, accidental as int);
            &&& (0 <= m <= 127) ==> r == Some(m as u8)
            &&& !(0 <= m <= 127) ==> r is None
        }),
{
    let half_lines: i32 = (yqpit as i32) / 2;
    let mut letter_name: i32 = half_lines % 7;
    if letter_name < 0 {
        letter_name = letter_name + 7;
    }
    let mut octave: i32 = half_lines / 7;
    if half_lines < 0 && letter_name != 0 {
        octave = octave - 1;
    }
    proof {
        let h = half_lines as int;
        assert(letter_name == h % 7 && octave == h / 7) by {
            if h >= 0 {
                assert(h % 7 == h - 7 * (h / 7)) by (nonlinear_arith);
            } else {
                assert((-h) / 7 >= 0) by (nonlinear_arith) requires -h >= 0;
                assert(h == 7 * (h / 7) + h % 7) by (nonlinear_arith);
                assert(-h == 7 * ((-h) / 7) + (-h) % 7) by (nonlinear_arith);
            }
        }
    }
    let semitones_base: i32 = if letter_name == 0 {
        0
    } else if letter_name == 1 {
        2
    } else if letter_name == 2 {
        4
    } else if letter_name == 3 {
        5
    } else if letter_name == 4 {
        7
    } else if letter_name == 5 {
        9
    } else {
        11
    };
    let ac_offset: i32 = if accidental == 0 { 0 } else { accidental as i32 - 3 };
    let semitones = semitones_base + ac_offset;
    let midi_note: i32 = 60 + (12 * octave + semitones);
    if !(0 <= midi_note && midi_note <= 127) {
        return None;
    }
    Some(midi_note as u8)
}

// ----------------------------------------------------------------------------
// SMF encoding helpers
// ----------------------------------------------------------------------------

/// The continuation bytes of a variable-length quantity for the value `w`
/// (every byte has its high bit set), most significant first.
pub open spec fn vlq_cont(w: nat) -> Seq<u8>
    decreases w,
{
    if w < 128 {
        seq![(w + 128) as u8]
    } else {
        vlq_cont(w / 128) + seq![(w % 128 + 128) as u8]
    }
}

/// The MIDI variable-length quantity of `v`: base-128 digits, most
/// significant first, with the high bit set on every byte but the last.
pub open spec fn vlq(v: nat) -> Seq<u8> {
    if v < 128 {
        seq![v as u8]
    } else {
        vlq_cont(v / 128) + seq![(v % 128) as u8]
    }
}

/// The value read back from a sequence of variable-length-quantity bytes:
/// the low seven bits of each byte, as base-128 digits.
pub open spec fn vlq_value(bytes: Seq<u8>) -> nat
    decreases bytes.len(),
{
    if bytes.len() == 0 {
        0
    } else {
        vlq_value(bytes.drop_last()) * 128 + (bytes.last() % 128) as nat
    }
}

/// Every byte but the last has its high bit set, and the last does not.
pub open spec fn vlq_well_formed(bytes: Seq<u8>) -> bool {
    &&& bytes.len() >= 1
    &&& forall|i: int| 0 <= i < bytes.len() - 1 ==> #[trigger] bytes[i] >= 128
    &&& bytes.last() < 128
}

proof fn lemma_vlq_cont(w: nat)
    ensures
        vlq_value(vlq_cont(w)) == w,
        vlq_cont(w).len() >= 1,
        forall|i: int| 0 <= i < vlq_cont(w).len() ==> #[trigger] vlq_cont(w)[i] >= 128,
        w < 128 ==> vlq_cont(w).len() == 1,
        w < 16384 ==> vlq_cont(w).len() <= 2,
        w < 2097152 ==> vlq_cont(w).len() <= 3,
        w < 268435456 ==> vlq_cont(w).len() <= 4,
    decreases w,
{
    let s = vlq_cont(w);
    if w < 128 {
        assert(s.drop_last() =~= Seq::<u8>::empty());
        assert(((w + 128) as u8) % 128 == w);
        assert(vlq_value(s) == vlq_value(s.drop_last()) * 128 + (s.last() % 128) as nat);
    } else {
        lemma_vlq_cont(w / 128);
        assert(s.drop_last() =~= vlq_cont(w / 128));
        let last: u8 = (w % 128 + 128) as u8;
        assert(s.last() == last);
        assert(last % 128 == w % 128);
        assert(vlq_value(s) == vlq_value(s.drop_last()) * 128 + (s.last() % 128) as nat);
        assert(vlq_value(s) == (w / 128) * 128 + w % 128);
        assert(forall|i: int| 0 <= i < s.len() - 1 ==> s[i] == vlq_cont(w / 128)[i]);
    }
}

/// Reading back a variable-length quantity gives the encoded value; the
/// encoding is well formed and takes one to five bytes for a 32-bit value.
pub proof fn lemma_vlq_roundtrip(v: nat)
    ensures
        vlq_value(vlq(v)) == v,
        vlq_well_formed(vlq(v)),
        v < 0x1_0000_0000 ==> 1 <= vlq(v).len() <= 5,
{
    let s = vlq(v);
    if v < 128 {
        assert(s.drop_last() =~= Seq::<u8>::empty());
        assert(vlq_value(s) == vlq_value(s.drop_last()) * 128 + (s.last() % 128) as nat);
    } else {
        lemma_vlq_cont(v / 128);
        assert(s.drop_last() =~= vlq_cont(v / 128));
        assert(vlq_value(s) == vlq_value(s.drop_last()) * 128 + (s.last() % 128) as nat);
        assert(vlq_value(s) == (v / 128) * 128 + v % 128);
        assert forall|i: int| 0 <= i < s.len() - 1 implies #[trigger] s[i] >= 128 by {
            assert(s[i] == vlq_cont(v / 128)[i]);
        }
    }
}

/// Encode a value as a MIDI variable-length quantity.
pub fn encode_vlq(value: u32) -> (r: Vec<u8>)
    ensures
        r@ == vlq(value as nat),
{
    let mut result: Vec<u8> = Vec::new();
    result.push((value % 128) as u8);
    let mut w: u32 = value / 128;
    while w > 0
        invariant
            (if w == 0 { Seq::<u8>::empty() } else { vlq_cont(w as nat) }) + result@ == vlq(value as nat),
        decreases w,
    {
        let ghost old_result = result@;
        result.insert(0, (w % 128 + 128) as u8);
        proof {
            if w >= 128 {
                assert(vlq_cont(w as nat) == vlq_cont((w / 128) as nat) + seq![((w % 128) + 128) as u8]);
                assert(vlq_cont((w / 128) as nat) + result@ =~= vlq_cont(w as nat) + old_result);
            } else {
                assert(result@ =~= vlq_cont(w as nat) + old_result);
            }
        }
        w = w / 128;
    }
    assert(Seq::<u8>::empty() + result@ =~= result@);
    result
}

/// The big-endian bytes of a 32-bit value, most significant first.
pub open spec fn be32(v: nat) -> Seq<u8> {
    seq![
        ((v / 0x1000000) % 256) as u8,
        ((v / 0x10000) % 256) as u8,
        ((v / 0x100) % 256) as u8,
        (v % 256) as u8,
    ]
}

/// The big-endian bytes of a 16-bit value, most significant first.
pub open spec fn be16(v: nat) -> Seq<u8> {
    seq![((v / 0x100) % 256) as u8, (v % 256) as u8]
}

/// The value of a sequence of big-endian bytes.
pub open spec fn be_value(bytes: Seq<u8>) -> nat
    decreases bytes.len(),
{
    if bytes.len() == 0 {
        0
    } else {
        be_value(bytes.drop_last()) * 256 + bytes.last() as nat
    }
}

/// Write a 4-byte big-endian value.
pub fn write_be32(value: u32) -> (r: [u8; 4])
    ensures
        r@ == be32(value as nat),
{
    let b0: u8 = ((value >> 24) & 0xFF) as u8;
    let b1: u8 = ((value >> 16) & 0xFF) as u8;
    let b2: u8 = ((value >> 8) & 0xFF) as u8;
    let b3: u8 = (value & 0xFF) as u8;
    assert(((value >> 24) & 0xFF) == (value / 0x1000000) % 256) by (bit_vector);
    assert(((value >> 16) & 0xFF) == (value / 0x10000) % 256) by (bit_vector);
    assert(((value >> 8) & 0xFF) == (value / 0x100) % 256) by (bit_vector);
    assert((value & 0xFF) == value % 256) by (bit_vector);
    let r = [b0, b1, b2, b3];
    assert(r@ =~= be32(value as nat));
    r
}

/// Write a 2-byte big-endian value.
pub fn write_be16(value: u16) -> (r: [u8; 2])
    ensures
        r@ == be16(value as nat),
{
    let b0: u8 = ((value >> 8) & 0xFF) as u8;
    let b1: u8 = (value & 0xFF) as u8;
    assert(((value >> 8) & 0xFF) == (value / 0x100) % 256) by (bit_vector);
    assert((value & 0xFF) == value % 256) by (bit_vector);
    let r = [b0, b1];
    assert(r@ =~= be16(value as nat));
    r
}

/// Reading back the big-endian bytes of a 32-bit or 16-bit value gives the value.
pub proof fn lemma_be_roundtrip(v: nat, w: nat)
    requires
        v < 0x1_0000_0000,
        w < 0x10000,
    ensures
        be_value(be32(v)) == v,
        be_value(be16(w)) == w,
{
    let s = be32(v);
    let a = (v / 0x1000000) % 256;
    let b = (v / 0x10000) % 256;
    let c = (v / 0x100) % 256;
    let d = v % 256;
    let s3 = s.drop_last();
    let s2 = s3.drop_last();
    let s1 = s2.drop_last();
    let s0 = s1.drop_last();
    assert(s0 =~= Seq::<u8>::empty());
    assert(s1 =~= seq![a as u8]);
    assert(s2 =~= seq![a as u8, b as u8]);
    assert(s3 =~= seq![a as u8, b as u8, c as u8]);
    assert(be_value(s0) == 0);
    assert(be_value(s1) == a);
    assert(be_value(s2) == a * 256 + b);
    assert(be_value(s3) == (a * 256 + b) * 256 + c);
    assert(be_value(s) == ((a * 256 + b) * 256 + c) * 256 + d);
    assert(v == ((((v / 0x1000000) % 256) * 256 + (v / 0x10000) % 256) * 256 + (v / 0x100) % 256) * 256 + v % 256) by (nonlinear_arith)
        requires v < 0x1_0000_0000;
    let t = be16(w);
    let e = (w / 0x100) % 256;
    let f = w % 256;
    let t1 = t.drop_last();
    let t0 = t1.drop_last();
    assert(t0 =~= Seq::<u8>::empty());
    assert(t1 =~= seq![e as u8]);
    assert(be_value(t0) == 0);
    assert(be_value(t1) == e);
    assert(be_value(t) == e * 256 + f);
    assert(w == ((w / 0x100) % 256) * 256 + w % 256) by (nonlinear_arith)
        requires w < 0x10000;
}

// ----------------------------------------------------------------------------
// Events
// ----------------------------------------------------------------------------

/// A MIDI event produced from the score.
#[derive(Debug, Clone, Copy, PartialEq, Eq)]
pub enum MidiEvent {
    /// Program change on a channel.
    ProgramChange { channel: u8, program: u8 },
    /// Bank select (controller 0) on a channel.
    BankSelect { channel: u8, bank: u8 },
    /// Note on.
    NoteOn { channel: u8, note: u8, velocity: u8 },
    /// Note off.
    NoteOff { channel: u8, note: u8 },
    /// Tempo in microseconds per quarter note.
    SetTempo { tempo_us: u32 },
    /// Time signature; the denominator is a power-of-two exponent.
    TimeSignature { numerator: u8, denominator: u8, clocks_per_quarter: u8 },
    /// Key signature: sharps (positive) or flats (negative), and 1 for minor.
    KeySignature { sharps_flats: i8, is_minor: u8 },
}

/// A MIDI event and its time in ticks from the start of the score.
#[derive(Debug, Clone, Copy, PartialEq, Eq)]
pub struct TimedEvent {
    /// Ticks from the start of the score.
    pub time: u32,
    /// The event.
    pub event: MidiEvent,
}

/// The four clef families, with the position of middle C relative to the
/// staff in half-lines.
#[derive(Debug, Clone, Copy, PartialEq, Eq)]
pub enum ClefType {
    /// G clef.
    Treble,
    /// F clef.
    Bass,
    /// C clef on the middle line.
    Alto,
    /// C clef on the fourth line.
    Tenor,
}

impl ClefType {
    /// Half-lines from middle C to the clef's reference position.
    pub fn half_line_offset(self) -> (r: i8)
        ensures
            r == match self {
                ClefType::Treble => 10,
                ClefType::Bass => -2,
                ClefType::Alto => 4,
                ClefType::Tenor => 6,
            },
    {
        match self {
            ClefType::Treble => 10,
            ClefType::Bass => -2,
            ClefType::Alto => 4,
            ClefType::Tenor => 6,
        }
    }
}

/// The channel of a channel event (notes, programs, banks); meta events
/// (tempo, time and key signatures) have none.
pub open spec fn event_channel(e: MidiEvent) -> Option<u8> {
    match e {
        MidiEvent::ProgramChange { channel, .. } => Some(channel),
        MidiEvent::BankSelect { channel, .. } => Some(channel),
        MidiEvent::NoteOn { channel, .. } => Some(channel),
        MidiEvent::NoteOff { channel, .. } => Some(channel),
        _ => None,
    }
}

/// The track of an event: channel `c` goes to track `c + 1`, meta events to
/// track 0.
pub open spec fn track_of(e: MidiEvent) -> int {
    match event_channel(e) {
        Some(c) => c as int + 1,
        None => 0,
    }
}

/// The bytes of an event after its delta time: a status byte carrying the
/// channel's low four bits and the data bytes, or a meta event.
pub open spec fn event_bytes(e: MidiEvent) -> Seq<u8> {
    match e {
        MidiEvent::NoteOn { channel, note, velocity } => seq![(0x90 + channel % 16) as u8, note, velocity],
        MidiEvent::NoteOff { channel, note } => seq![(0x80 + channel % 16) as u8, note, 0u8],
        MidiEvent::ProgramChange { channel, program } => seq![(0xC0 + channel % 16) as u8, program],
        MidiEvent::BankSelect { channel, bank } => seq![(0xB0 + channel % 16) as u8, 0u8, bank],
        MidiEvent::SetTempo { tempo_us } => seq![
            0xFFu8,
            0x51u8,
            0x03u8,
            ((tempo_us / 0x10000) % 256) as u8,
            ((tempo_us / 0x100) % 256) as u8,
            (tempo_us % 256) as u8,
        ],
        MidiEvent::TimeSignature { numerator, denominator, clocks_per_quarter } => seq![
            0xFFu8,
            0x58u8,
            0x04u8,
            numerator,
            denominator,
            clocks_per_quarter,
            8u8,
        ],
        MidiEvent::KeySignature { sharps_flats, is_minor } => seq![
            0xFFu8,
            0x59u8,
            0x02u8,
            sharps_flats as u8,
            is_minor,
        ],
    }
}

/// Events are in non-decreasing time order.
pub open spec fn time_sorted(evs: Seq<TimedEvent>) -> bool {
    forall|i: int, j: int| 0 <= i <= j < evs.len() ==> #[trigger] evs[i].time <= #[trigger] evs[j].time
}

/// No channel event is on channel 255 (whose track number would not fit a byte).
pub open spec fn channels_fit(evs: Seq<TimedEvent>) -> bool {
    forall|i: int| 0 <= i < evs.len() ==> match #[trigger] event_channel(evs[i].event) {
        Some(c) => c < 255,
        None => true,
    }
}

/// The time of the last event of track `t` among `evs`, or 0.
pub open spec fn track_last_time(evs: Seq<TimedEvent>, t: int) -> int
    decreases evs.len(),
{
    if evs.len() == 0 {
        0
    } else if track_of(evs.last().event) == t {
        evs.last().time as int
    } else {
        track_last_time(evs.drop_last(), t)
    }
}

/// The number of events of track `t` among `evs`.
pub open spec fn track_count(evs: Seq<TimedEvent>, t: int) -> nat
    decreases evs.len(),
{
    if evs.len() == 0 {
        0
    } else if track_of(evs.last().event) == t {
        track_count(evs.drop_last(), t) + 1
    } else {
        track_count(evs.drop_last(), t)
    }
}

/// The events of track `t`, in order, each as its delta time from the
/// previous event of the track (the first from 0) followed by its bytes.
pub open spec fn track_body(evs: Seq<TimedEvent>, t: int) -> Seq<u8>
    decreases evs.len(),
{
    if evs.len() == 0 {
        Seq::empty()
    } else {
        let prev = track_body(evs.drop_last(), t);
        let e = evs.last();
        if track_of(e.event) == t {
            prev + vlq((e.time - track_last_time(evs.drop_last(), t)) as nat) + event_bytes(e.event)
        } else {
            prev
        }
    }
}

/// A track is written when it is track 0 or holds an event.
pub open spec fn track_present(evs: Seq<TimedEvent>, t: int) -> bool {
    t == 0 || track_count(evs, t) > 0
}

/// `"MTrk"`.
pub open spec fn mtrk() -> Seq<u8> {
    seq![0x4Du8, 0x54u8, 0x72u8, 0x6Bu8]
}

/// `"MThd"`.
pub open spec fn mthd() -> Seq<u8> {
    seq![0x4Du8, 0x54u8, 0x68u8, 0x64u8]
}

/// The end-of-track meta event with its zero delta time.
pub open spec fn end_of_track() -> Seq<u8> {
    seq![0x00u8, 0xFFu8, 0x2Fu8, 0x00u8]
}

/// A track chunk: `"MTrk"`, the data length (modulo 2^32) and the data,
/// which is the track body and the end-of-track event.
pub open spec fn track_chunk(evs: Seq<TimedEvent>, t: int) -> Seq<u8> {
    let data = track_body(evs, t) + end_of_track();
    mtrk() + be32((data.len() % 0x1_0000_0000) as nat) + data
}

/// The chunks of the present tracks among `0..n`, in track order.
pub open spec fn tracks_bytes(evs: Seq<TimedEvent>, n: int) -> Seq<u8>
    decreases n,
{
    if n <= 0 {
        Seq::empty()
    } else {
        tracks_bytes(evs, n - 1) + if track_present(evs, n - 1) {
            track_chunk(evs, n - 1)
        } else {
            Seq::empty()
        }
    }
}

/// The number of present tracks among `0..n`.
pub open spec fn tracks_count(evs: Seq<TimedEvent>, n: int) -> nat
    decreases n,
{
    if n <= 0 {
        0
    } else {
        tracks_count(evs, n - 1) + if track_present(evs, n - 1) { 1nat } else { 0nat }
    }
}

/// A format-1 Standard MIDI File of the events: the header chunk (length 6,
/// format 1, the number of tracks, 480 ticks per quarter) and one track
/// chunk per present track, track 0 holding the meta events and track
/// `c + 1` the events of channel `c`.
pub open spec fn smf_bytes(evs: Seq<TimedEvent>) -> Seq<u8> {
    mthd() + be32(6) + be16(1) + be16(tracks_count(evs, 256)) + be16(480) + tracks_bytes(evs, 256)
}

proof fn lemma_tracks_count_bound(evs: Seq<TimedEvent>, n: int)
    ensures
        tracks_count(evs, n) <= if n < 0 { 0 } else { n },
    decreases n,
{
    if n > 0 {
        lemma_tracks_count_bound(evs, n - 1);
    }
}

proof fn lemma_track_last_time_bound(evs: Seq<TimedEvent>, t: int, bound: int)
    requires
        bound >= 0,
        forall|i: int| 0 <= i < evs.len() ==> #[trigger] evs[i].time <= bound,
    ensures
        0 <= track_last_time(evs, t) <= bound,
    decreases evs.len(),
{
    if evs.len() > 0 {
        let p = evs.drop_last();
        assert forall|i: int| 0 <= i < p.len() implies #[trigger] p[i].time <= bound by {
            assert(p[i] == evs[i]);
        }
        lemma_track_last_time_bound(p, t, bound);
    }
}

/// The track of an event (see `track_of`).
fn event_track(e: &MidiEvent) -> (r: u16)
    requires
        match event_channel(*e) {
            Some(c) => c < 255,
            None => true,
        },
    ensures
        r as int == track_of(*e),
{
    match e {
        MidiEvent::NoteOn { channel, .. } => (*channel + 1) as u16,
        MidiEvent::NoteOff { channel, .. } => (*channel + 1) as u16,
        MidiEvent::ProgramChange { channel, .. } => (*channel + 1) as u16,
        MidiEvent::BankSelect { channel, .. } => (*channel + 1) as u16,
        MidiEvent::SetTempo { .. } => 0,
        MidiEvent::TimeSignature { .. } => 0,
        MidiEvent::KeySignature { .. } => 0,
    }
}

/// Append the bytes of an event (see `event_bytes`).
fn push_event_bytes(data: &mut Vec<u8>, e: &MidiEvent)
    ensures
        final(data)@ == old(data)@ + event_bytes(*e),
{
    let ghost d0 = data@;
    match e {
        MidiEvent::NoteOn { channel: ch, note, velocity } => {
            let c = *ch;
            assert(0x90 | (c & 0x0F) == (0x90 + c % 16) as u8) by (bit_vector);
            data.push(0x90 | (c & 0x0F));
            data.push(*note);
            data.push(*velocity);
        },
        MidiEvent::NoteOff { channel: ch, note } => {
            let c = *ch;
            assert(0x80 | (c & 0x0F) == (0x80 + c % 16) as u8) by (bit_vector);
            data.push(0x80 | (c & 0x0F));
            data.push(*note);
            data.push(0);
        },
        MidiEvent::ProgramChange { channel: ch, program } => {
            let c = *ch;
            assert(0xC0 | (c & 0x0F) == (0xC0 + c % 16) as u8) by (bit_vector);
            data.push(0xC0 | (c & 0x0F));
            data.push(*program);
        },
        MidiEvent::BankSelect { channel: ch, bank } => {
            let c = *ch;
            assert(0xB0 | (c & 0x0F) == (0xB0 + c % 16) as u8) by (bit_vector);
            data.push(0xB0 | (c & 0x0F));
            data.push(0x00);
            data.push(*bank);
        },
        MidiEvent::SetTempo { tempo_us } => {
            let t = *tempo_us;
            assert(((t >> 16) & 0xFF) == (t / 0x10000) % 256) by (bit_vector);
            assert(((t >> 8) & 0xFF) == (t / 0x100) % 256) by (bit_vector);
            assert((t & 0xFF) == t % 256) by (bit_vector);
            data.push(0xFF);
            data.push(0x51);
            data.push(0x03);
            data.push(((t >> 16) & 0xFF) as u8);
            data.push(((t >> 8) & 0xFF) as u8);
            data.push((t & 0xFF) as u8);
        },
        MidiEvent::TimeSignature { numerator, denominator, clocks_per_quarter } => {
            data.push(0xFF);
            data.push(0x58);
            data.push(0x04);
            data.push(*numerator);
            data.push(*denominator);
            data.push(*clocks_per_quarter);
            data.push(8);
        },
        MidiEvent::KeySignature { sharps_flats, is_minor } => {
            data.push(0xFF);
            data.push(0x59);
            data.push(0x02);
            data.push(*sharps_flats as u8);
            data.push(*is_minor);
        },
    }
    assert(data@ =~= d0 + event_bytes(*e));
}

/// The body and event count of track `t` (see `track_body`).
fn encode_track(events: &Vec<TimedEvent>, t: u16) -> (r: (Vec<u8>, usize))
    requires
        time_sorted(events@),
        channels_fit(events@),
    ensures
        r.0@ == track_body(events@, t as int),
        r.1 == track_count(events@, t as int),
{
    let mut data: Vec<u8> = Vec::new();
    let mut count: usize = 0;
    let mut last_time: u32 = 0;
    let mut i: usize = 0;
    while i < events.len()
        invariant
            i <= events@.len(),
            time_sorted(events@),
            channels_fit(events@),
            data@ == track_body(events@.take(i as int), t as int),
            count == track_count(events@.take(i as int), t as int),
            count <= i,
            last_time == track_last_time(events@.take(i as int), t as int),
        decreases events.len() - i,
    {
        let ghost pre = events@.take(i as int);
        let e = events[i];
        proof {
            assert(events@.take(i + 1).drop_last() =~= pre);
            assert(events@.take(i + 1).last() == e);
            assert(match event_channel(events@[i as int].event) { Some(c) => c < 255, None => true });
            lemma_track_last_time_bound(pre, t as int, e.time as int);
        }
        if event_track(&e.event) == t {
            let delta = e.time - last_time;
            let mut v = encode_vlq(delta);
            data.append(&mut v);
            push_event_bytes(&mut data, &e.event);
            last_time = e.time;
            count = count + 1;
        }
        i = i + 1;
    }
    assert(events@.take(events@.len() as int) =~= events@);
    (data, count)
}

/// Append the bytes of `src` to `dst`.
fn append_bytes(dst: &mut Vec<u8>, src: &[u8])
    ensures
        final(dst)@ == old(dst)@ + src@,
{
    let mut i: usize = 0;
    let ghost d0 = dst@;
    while i < src.len()
        invariant
            i <= src@.len(),
            dst@ == d0 + src@.take(i as int),
        decreases src.len() - i,
    {
        dst.push(src[i]);
        i = i + 1;
        assert(dst@ =~= d0 + src@.take(i as int));
    }
    assert(src@.take(src@.len() as int) =~= src@);
}

// ----------------------------------------------------------------------------
// Exporter
// ----------------------------------------------------------------------------

/// Collects the timed events of a score and writes them as a Standard MIDI File.
#[derive(Debug)]
pub struct MidiExporter {
    /// The events; `export` leaves them sorted by time.
    pub timed_events: Vec<TimedEvent>,
    /// Tempo in beats per minute used at the start of the score.
    pub default_tempo: u32,
}

impl MidiExporter {
    /// An exporter with no events and a tempo of 120 BPM.
    pub fn new() -> (r: Self)
        ensures
            r.timed_events@ == Seq::<TimedEvent>::empty(),
            r.default_tempo == 120,
    {
        MidiExporter { timed_events: Vec::new(), default_tempo: 120 }
    }

    /// Set the starting tempo in beats per minute.
    pub fn set_tempo(&mut self, bpm: u32)
        ensures
            final(self).default_tempo == bpm,
            final(self).timed_events@ == old(self).timed_events@,
    {
        self.default_tempo = bpm;
    }

    /// The Standard MIDI File of the events (see `smf_bytes`).
    pub fn to_smf(&self) -> (r: Vec<u8>)
        requires
            time_sorted(self.timed_events@),
            channels_fit(self.timed_events@),
        ensures
            r@ == smf_bytes(self.timed_events@),
    {
        let ghost evs = self.timed_events@;
        let mut chunks: Vec<u8> = Vec::new();
        let mut num_tracks: u16 = 0;
        let mut t: u16 = 0;
        while t < 256
            invariant
                t <= 256,
                evs == self.timed_events@,
                time_sorted(evs),
                channels_fit(evs),
                chunks@ == tracks_bytes(evs, t as int),
                num_tracks == tracks_count(evs, t as int),
            decreases 256 - t,
        {
            proof { lemma_tracks_count_bound(evs, t as int); }
            let (body, count) = encode_track(&self.timed_events, t);
            let ghost c0 = chunks@;
            if t == 0 || count > 0 {
                let mut data = body;
                data.push(0x00);
                data.push(0xFF);
                data.push(0x2F);
                data.push(0x00);
                append_bytes(&mut chunks, &[0x4Du8, 0x54u8, 0x72u8, 0x6Bu8]);
                let dlen: usize = data.len();
                let len32: u32 = #[verifier::truncate] (dlen as u32);
                assert(len32 as u64 == (dlen as u64) % 0x1_0000_0000u64) by (bit_vector)
                    requires len32 == #[verifier::truncate] (dlen as u32);
                append_bytes(&mut chunks, &write_be32(len32));
                append_bytes(&mut chunks, data.as_slice());
                num_tracks = num_tracks + 1;
                proof {
                    assert(data@ =~= track_body(evs, t as int) + end_of_track());
                    assert(chunks@ =~= c0 + track_chunk(evs, t as int));
                }
            }
            t = t + 1;
        }
        let mut output: Vec<u8> = Vec::new();
        append_bytes(&mut output, &[0x4Du8, 0x54u8, 0x68u8, 0x64u8]);
        append_bytes(&mut output, &write_be32(6));
        append_bytes(&mut output, &write_be16(1));
        append_bytes(&mut output, &write_be16(num_tracks));
        append_bytes(&mut output, &write_be16(DFLT_BEATDUR as u16));
        output.append(&mut chunks);
        proof {
            assert(output@ =~= smf_bytes(evs));
        }
        output
    }
}

impl Default for MidiExporter {
    fn default() -> (r: Self)
        ensures
            r.timed_events@ == Seq::<TimedEvent>::empty(),
            r.default_tempo == 120,
    {
        Self::new()
    }
}

// ----------------------------------------------------------------------------
// Stable ordering by time
// ----------------------------------------------------------------------------

/// The first index from `j` on whose event is later than `t`, or the length.
pub open spec fn upper_from(s: Seq<TimedEvent>, t: u32, j: int) -> int
    decreases s.len() - j,
{
    if j < 0 || j >= s.len() {
        s.len() as int
    } else if s[j].time > t {
        j
    } else {
        upper_from(s, t, j + 1)
    }
}

/// Insert `e` into time-ordered `s` after every event not later than it.
pub open spec fn insert_by_time(s: Seq<TimedEvent>, e: TimedEvent) -> Seq<TimedEvent> {
    s.insert(upper_from(s, e.time, 0), e)
}

/// The events ordered by time, events of equal time keeping their order.
pub open spec fn sort_by_time(s: Seq<TimedEvent>) -> Seq<TimedEvent>
    decreases s.len(),
{
    if s.len() == 0 {
        s
    } else {
        insert_by_time(sort_by_time(s.drop_last()), s.last())
    }
}

/// The events of `s` at time `t`, in order.
pub open spec fn events_at(s: Seq<TimedEvent>, t: u32) -> Seq<TimedEvent>
    decreases s.len(),
{
    if s.len() == 0 {
        Seq::empty()
    } else {
        let p = events_at(s.drop_last(), t);
        if s.last().time == t {
            p.push(s.last())
        } else {
            p
        }
    }
}

proof fn lemma_upper_from(s: Seq<TimedEvent>, t: u32, j: int)
    requires
        0 <= j <= s.len(),
    ensures
        j <= upper_from(s, t, j) <= s.len(),
        forall|i: int| j <= i < upper_from(s, t, j) ==> #[trigger] s[i].time <= t,
        upper_from(s, t, j) < s.len() ==> s[upper_from(s, t, j)].time > t,
    decreases s.len() - j,
{
    if j < s.len() && s[j].time <= t {
        lemma_upper_from(s, t, j + 1);
    }
}

proof fn lemma_events_at_add(a: Seq<TimedEvent>, b: Seq<TimedEvent>, t: u32)
    ensures
        events_at(a + b, t) == events_at(a, t) + events_at(b, t),
    decreases b.len(),
{
    if b.len() == 0 {
        assert(a + b =~= a);
        assert(events_at(a, t) + events_at(b, t) =~= events_at(a, t));
    } else {
        lemma_events_at_add(a, b.drop_last(), t);
        assert((a + b).drop_last() =~= a + b.drop_last());
        assert((a + b).last() == b.last());
        if b.last().time == t {
            assert(events_at(a, t) + events_at(b.drop_last(), t).push(b.last())
                =~= (events_at(a, t) + events_at(b.drop_last(), t)).push(b.last()));
        }
    }
}

proof fn lemma_events_at_none(s: Seq<TimedEvent>, t: u32)
    requires
        forall|i: int| 0 <= i < s.len() ==> #[trigger] s[i].time != t,
    ensures
        events_at(s, t) == Seq::<TimedEvent>::empty(),
    decreases s.len(),
{
    if s.len() > 0 {
        let p = s.drop_last();
        assert forall|i: int| 0 <= i < p.len() implies #[trigger] p[i].time != t by {
            assert(p[i] == s[i]);
        }
        lemma_events_at_none(p, t);
        assert(s.last() == s[s.len() - 1]);
    }
}

proof fn lemma_insert_sorted(s: Seq<TimedEvent>, e: TimedEvent)
    requires
        time_sorted(s),
    ensures
        time_sorted(insert_by_time(s, e)),
        insert_by_time(s, e).len() == s.len() + 1,
{
    let k = upper_from(s, e.time, 0);
    lemma_upper_from(s, e.time, 0);
    let r = insert_by_time(s, e);
    assert forall|i: int| k <= i < s.len() implies #[trigger] s[i].time > e.time by {
        assert(s[k].time <= s[i].time);
    }
    assert forall|i: int, j: int| 0 <= i <= j < r.len() implies #[trigger] r[i].time <= #[trigger] r[j].time by {
        if i < k {
            if j < k {
                assert(r[i] == s[i] && r[j] == s[j]);
            } else if j == k {
                assert(r[i] == s[i]);
            } else {
                assert(r[i] == s[i] && r[j] == s[j - 1]);
            }
        } else if i == k {
            if j > k {
                assert(r[j] == s[j - 1]);
            }
        } else {
            assert(r[i] == s[i - 1] && r[j] == s[j - 1]);
        }
    }
}

proof fn lemma_events_at_single(e: TimedEvent, t: u32)
    ensures
        events_at(seq![e], t) == if e.time == t { seq![e] } else { Seq::<TimedEvent>::empty() },
{
    let s = seq![e];
    assert(s.drop_last() =~= Seq::<TimedEvent>::empty());
    assert(s.last() == e);
    assert(events_at(Seq::<TimedEvent>::empty(), t) == Seq::<TimedEvent>::empty());
    assert(Seq::<TimedEvent>::empty().push(e) =~= seq![e]);
}

proof fn lemma_insert_events(s: Seq<TimedEvent>, e: TimedEvent, t: u32)
    requires
        time_sorted(s),
    ensures
        events_at(insert_by_time(s, e), t) == events_at(s.push(e), t),
{
    let k = upper_from(s, e.time, 0);
    lemma_upper_from(s, e.time, 0);
    let r = insert_by_time(s, e);
    let a = s.take(k);
    let b = s.skip(k);
    assert(r =~= a + seq![e] + b);
    assert(s =~= a + b);
    assert(s.push(e).drop_last() =~= s);
    assert(s.push(e).last() == e);
    lemma_events_at_add(a + seq![e], b, t);
    lemma_events_at_add(a, seq![e], t);
    lemma_events_at_add(a, b, t);
    lemma_events_at_single(e, t);
    if e.time == t {
        assert forall|i: int| 0 <= i < b.len() implies #[trigger] b[i].time != t by {
            assert(b[i] == s[i + k]);
            assert(s[k].time <= s[i + k].time);
        }
        lemma_events_at_none(b, t);
        assert(events_at(a, t) + seq![e] + Seq::<TimedEvent>::empty()
            =~= (events_at(a, t) + Seq::<TimedEvent>::empty()).push(e));
    } else {
        assert(events_at(a, t) + Seq::<TimedEvent>::empty() =~= events_at(a, t));
    }
}

/// Ordering by time gives a time-ordered sequence of the same length, and
/// at each time the same events in the same order as before: a stable sort.
pub proof fn lemma_sort_by_time(s: Seq<TimedEvent>)
    ensures
        time_sorted(sort_by_time(s)),
        sort_by_time(s).len() == s.len(),
        forall|t: u32| #[trigger] events_at(sort_by_time(s), t) == events_at(s, t),
    decreases s.len(),
{
    if s.len() > 0 {
        let p = s.drop_last();
        lemma_sort_by_time(p);
        lemma_insert_sorted(sort_by_time(p), s.last());
        assert forall|t: u32| #[trigger] events_at(sort_by_time(s), t) == events_at(s, t) by {
            let q = sort_by_time(p).push(s.last());
            lemma_insert_events(sort_by_time(p), s.last(), t);
            assert(q.drop_last() =~= sort_by_time(p));
            assert(q.last() == s.last());
            assert(sort_by_time(s) == insert_by_time(sort_by_time(p), s.last()));
            assert(events_at(sort_by_time(p), t) == events_at(p, t));
            assert(events_at(q, t) == if s.last().time == t {
                events_at(sort_by_time(p), t).push(s.last())
            } else {
                events_at(sort_by_time(p), t)
            });
            assert(events_at(s, t) == if s.last().time == t {
                events_at(p, t).push(s.last())
            } else {
                events_at(p, t)
            });
        }
    }
}

/// Order events by time, keeping the order of events of equal time.
fn sort_events_by_time(input: &Vec<TimedEvent>) -> (r: Vec<TimedEvent>)
    ensures
        r@ == sort_by_time(input@),
{
    let mut result: Vec<TimedEvent> = Vec::new();
    let mut i: usize = 0;
    while i < input.len()
        invariant
            i <= input@.len(),
            result@ == sort_by_time(input@.take(i as int)),
        decreases input.len() - i,
    {
        proof { lemma_sort_by_time(input@.take(i as int)); }
        let e = input[i];
        let mut k: usize = 0;
        while k < result.len() && result[k].time <= e.time
            invariant
                k <= result@.len(),
                upper_from(result@, e.time, 0) == upper_from(result@, e.time, k as int),
            decreases result.len() - k,
        {
            k = k + 1;
        }
        result.insert(k, e);
        proof {
            assert(input@.take(i + 1).drop_last() =~= input@.take(i as int));
            assert(input@.take(i + 1).last() == e);
        }
        i = i + 1;
    }
    assert(input@.take(input@.len() as int) =~= input@);
    result
}

// ----------------------------------------------------------------------------
// Events of a score
// ----------------------------------------------------------------------------

/// The part that plays staff `staff`: the last part whose staff range holds it.
pub open spec fn part_for_staff(parts: Seq<PartInfo>, staff: int) -> Option<int>
    decreases parts.len(),
{
    if parts.len() == 0 {
        None
    } else if parts.last().first_staff <= staff <= parts.last().last_staff {
        Some(parts.len() - 1)
    } else {
        part_for_staff(parts.drop_last(), staff)
    }
}

/// The MIDI channel of a staff: staff `s` plays on channel `s - 1`, kept within 0..=15.
pub open spec fn staff_channel(staff: int) -> u8 {
    if staff - 1 < 0 { 0 } else if staff - 1 > 15 { 15 } else { (staff - 1) as u8 }
}

/// Note velocity: the velocity of the dynamic in force plus the part's
/// velocity offset (taken as an unsigned byte), clamped to 1..=127.
pub open spec fn note_velocity(dynamic_type: i8, part_velocity: i8) -> u8 {
    let v = spec_dynamic_to_velocity(dynamic_type as int) + (part_velocity as u8) as int;
    if v < 1 { 1 } else if v > 127 { 127 } else { v as u8 }
}

/// A MIDI note number kept within 0..=127.
pub open spec fn clamp_note(n: int) -> u8 {
    if n < 0 { 0 } else if n > 127 { 127 } else { n as u8 }
}

/// The note-on time of a note of a sync starting at `start`.
pub open spec fn note_on_time(start: int, n: ANote) -> int {
    start + if n.play_time_delta < 0 { 0 } else { n.play_time_delta as int }
}

/// The note-off time: the note-on time plus the play duration (taken as an
/// unsigned 32-bit value), at least 1.
pub open spec fn note_off_time(start: int, n: ANote) -> int {
    note_on_time(start, n) + if (n.play_dur as u32) < 1 { 1 } else { (n.play_dur as u32) as int }
}

/// The note-on and note-off events of one note of a sync starting at
/// `start`, with the dynamic `dynamic_type` in force; none for a rest or a
/// note on a staff that no part plays.
pub open spec fn one_note_events(parts: Seq<PartInfo>, start: int, dynamic_type: i8, n: ANote) -> Seq<TimedEvent> {
    if n.rest {
        Seq::empty()
    } else {
        match part_for_staff(parts, n.header.staffn as int) {
            None => Seq::empty(),
            Some(p) => {
                let channel = staff_channel(n.header.staffn as int);
                let note = clamp_note(n.note_num as int + parts[p].transpose as int);
                seq![
                    TimedEvent {
                        time: note_on_time(start, n) as u32,
                        event: MidiEvent::NoteOn { channel, note, velocity: note_velocity(dynamic_type, parts[p].part_velocity) },
                    },
                    TimedEvent {
                        time: note_off_time(start, n) as u32,
                        event: MidiEvent::NoteOff { channel, note },
                    },
                ]
            },
        }
    }
}

/// The note times of a played note fit 32 bits.
pub open spec fn one_note_fits(parts: Seq<PartInfo>, start: int, n: ANote) -> bool {
    !n.rest && part_for_staff(parts, n.header.staffn as int) is Some ==> note_off_time(start, n) <= u32::MAX
}

/// The events of the notes of a sync, in note order.
pub open spec fn note_events(parts: Seq<PartInfo>, start: int, dynamic_type: i8, notes: Seq<ANote>) -> Seq<TimedEvent>
    decreases notes.len(),
{
    if notes.len() == 0 {
        Seq::empty()
    } else {
        note_events(parts, start, dynamic_type, notes.drop_last()) + one_note_events(parts, start, dynamic_type, notes.last())
    }
}

/// The MIDI time signature denominator: the power-of-two exponent of the
/// denominator 1, 2, 4, 8, 16 or 32, and 2 (a quarter) for any other.
pub open spec fn midi_denominator(d: i8) -> u8 {
    if d == 1 { 0 } else if d == 2 { 1 } else if d == 4 { 2 } else if d == 8 { 3 } else if d == 16 { 4 } else if d == 32 { 5 } else { 2 }
}

/// An object's effect on the export: the new measure time and the events it
/// emits at the current measure time `time`. A Measure sets the time to its
/// time stamp (taken as unsigned); a Tempo with a played metronome value
/// above 0 emits a tempo change; a TimeSig or KeySig emits the time or key
/// signature of its first subobject; a Sync emits its notes, starting at the
/// measure time plus its time stamp, at the velocity of the dynamic
/// `dynamic_type` in force. Other objects (clefs, dynamics, ...) emit
/// nothing.
pub open spec fn export_step(score: InterpretedScore, time: int, dynamic_type: i8, obj: InterpretedObject) -> (int, Seq<TimedEvent>) {
    let key = obj.header.first_sub_obj;
    match obj.data {
        ObjData::Measure(m) => ((m.l_time_stamp as u32) as int, Seq::empty()),
        ObjData::Tempo(tp) => (time, if !tp.no_mm && tp.tempo_mm > 0 {
            seq![TimedEvent {
                time: time as u32,
                event: MidiEvent::SetTempo { tempo_us: spec_bpm_us(tp.tempo_mm as u32) as u32 },
            }]
        } else {
            Seq::empty()
        }),
        ObjData::TimeSig(_) => (time, if score.timesigs@.contains_key(key) && score.timesigs@[key]@.len() > 0 {
            let ts = score.timesigs@[key]@[0];
            seq![TimedEvent {
                time: time as u32,
                event: MidiEvent::TimeSignature {
                    numerator: ts.numerator as u8,
                    denominator: midi_denominator(ts.denominator),
                    clocks_per_quarter: 24,
                },
            }]
        } else {
            Seq::empty()
        }),
        ObjData::KeySig(_) => (time, if score.keysigs@.contains_key(key) && score.keysigs@[key]@.len() > 0 {
            let ks = score.keysigs@[key]@[0];
            seq![TimedEvent {
                time: time as u32,
                event: MidiEvent::KeySignature { sharps_flats: spec_midi_sf(ks.ks_info) as i8, is_minor: 0 },
            }]
        } else {
            Seq::empty()
        }),
        ObjData::Sync(sy) => (time, if score.notes@.contains_key(key) {
            note_events(score.part_infos@, time + sy.time_stamp as int, dynamic_type, score.notes@[key]@)
        } else {
            Seq::empty()
        }),
        _ => (time, Seq::empty()),
    }
}

/// The arithmetic of an object's step fits 32 bits (and a key signature's
/// count can be negated): the computation overflows otherwise.
pub open spec fn export_step_fits(score: InterpretedScore, time: int, obj: InterpretedObject) -> bool {
    let key = obj.header.first_sub_obj;
    match obj.data {
        ObjData::KeySig(_) => score.keysigs@.contains_key(key) && score.keysigs@[key]@.len() > 0
            ==> midi_sf_fits(score.keysigs@[key]@[0].ks_info),
        ObjData::Sync(sy) => {
            &&& time + sy.time_stamp as int <= u32::MAX
            &&& score.notes@.contains_key(key) ==> forall|i: int| 0 <= i < score.notes@[key]@.len()
                ==> one_note_fits(score.part_infos@, time + sy.time_stamp as int, #[trigger] score.notes@[key]@[i])
        },
        _ => true,
    }
}

/// The dynamic in force after the first `n` objects of the walk: that of the
/// last Dynamic object among them, mezzo-forte (6) before any; a dynamic
/// mark sets the velocity of the notes after it, on every staff.
pub open spec fn dynamic_after(score: InterpretedScore, n: int) -> i8
    decreases n,
{
    if n <= 0 {
        6
    } else {
        match score.obj_at(score.walk_order()[n - 1]).data {
            ObjData::Dynamic(d) => d.dynamic_type,
            _ => dynamic_after(score, n - 1),
        }
    }
}

/// The measure time and the events after the first `n` objects of the walk.
pub open spec fn export_fold(score: InterpretedScore, n: int) -> (int, Seq<TimedEvent>)
    decreases n,
{
    if n <= 0 {
        (0, Seq::empty())
    } else {
        let prev = export_fold(score, n - 1);
        let step = export_step(score, prev.0, dynamic_after(score, n - 1), score.obj_at(score.walk_order()[n - 1]));
        (step.0, prev.1 + step.1)
    }
}

/// Every step of the walk fits 32-bit arithmetic.
pub open spec fn export_fits(score: InterpretedScore) -> bool {
    forall|n: int| 0 <= n < score.walk_order().len() ==>
        export_step_fits(score, #[trigger] export_fold(score, n).0, score.obj_at(score.walk_order()[n]))
}

/// The events that set up one part at time 0: bank selects for its nonzero
/// bank numbers (controller 0, then 32) and its program.
pub open spec fn part_setup_events(p: PartInfo) -> Seq<TimedEvent> {
    (if p.bank_number0 > 0 {
        seq![TimedEvent { time: 0, event: MidiEvent::BankSelect { channel: p.channel, bank: p.bank_number0 } }]
    } else {
        Seq::empty()
    }) + (if p.bank_number32 > 0 {
        seq![TimedEvent { time: 0, event: MidiEvent::BankSelect { channel: p.channel, bank: p.bank_number32 } }]
    } else {
        Seq::empty()
    }) + seq![TimedEvent { time: 0, event: MidiEvent::ProgramChange { channel: p.channel, program: p.patch_num } }]
}

/// The setup events of the parts, in part order.
pub open spec fn parts_setup_events(parts: Seq<PartInfo>) -> Seq<TimedEvent>
    decreases parts.len(),
{
    if parts.len() == 0 {
        Seq::empty()
    } else {
        parts_setup_events(parts.drop_last()) + part_setup_events(parts.last())
    }
}

/// All events of a score, before ordering: the starting tempo, the part
/// setup events, then the events of the walk.
pub open spec fn score_events(score: InterpretedScore, tempo: u32) -> Seq<TimedEvent> {
    seq![TimedEvent { time: 0, event: MidiEvent::SetTempo { tempo_us: spec_bpm_us(tempo) as u32 } }]
        + parts_setup_events(score.part_infos@)
        + export_fold(score, score.walk_order().len() as int).1
}

/// The part that plays a staff (see `part_for_staff`).
fn find_part(parts: &Vec<PartInfo>, staff: i8) -> (r: Option<usize>)
    ensures
        match r {
            Some(p) => part_for_staff(parts@, staff as int) == Some(p as int) && (p as int) < parts@.len(),
            None => part_for_staff(parts@, staff as int) is None,
        },
{
    let mut i: usize = parts.len();
    assert(parts@.take(i as int) =~= parts@);
    while i > 0
        invariant
            i <= parts@.len(),
            part_for_staff(parts@, staff as int) == part_for_staff(parts@.take(i as int), staff as int),
        decreases i,
    {
        let p = &parts[i - 1];
        proof {
            assert(parts@.take(i as int).drop_last() =~= parts@.take(i - 1));
            assert(parts@.take(i as int).last() == parts@[i - 1]);
        }
        if p.first_staff <= staff && staff <= p.last_staff {
            return Some(i - 1);
        }
        i = i - 1;
    }
    None
}

/// Append the events of the notes of a sync starting at `start`.
fn push_note_events(parts: &Vec<PartInfo>, start: u32, dynamic_type: i8, notes: &Vec<ANote>, evs: &mut Vec<TimedEvent>)
    requires
        forall|i: int| 0 <= i < notes@.len() ==> one_note_fits(parts@, start as int, #[trigger] notes@[i]),
    ensures
        final(evs)@ == old(evs)@ + note_events(parts@, start as int, dynamic_type, notes@),
{
    let ghost e0 = evs@;
    let mut i: usize = 0;
    while i < notes.len()
        invariant
            i <= notes@.len(),
            forall|j: int| 0 <= j < notes@.len() ==> one_note_fits(parts@, start as int, #[trigger] notes@[j]),
            evs@ == e0 + note_events(parts@, start as int, dynamic_type, notes@.take(i as int)),
        decreases notes.len() - i,
    {
        let n = notes[i];
        proof {
            assert(notes@.take(i + 1).drop_last() =~= notes@.take(i as int));
            assert(notes@.take(i + 1).last() == n);
            assert(one_note_fits(parts@, start as int, notes@[i as int]));
        }
        let ghost before = evs@;
        if !n.rest {
            match find_part(parts, n.header.staffn) {
                Some(p) => {
                    let staff_num: i32 = n.header.staffn as i32;
                    let ch0: i32 = if staff_num - 1 < 0 { 0 } else { staff_num - 1 };
                    let channel: u8 = if ch0 > 15 { 15 } else { ch0 as u8 };
                    let part = &parts[p];
                    let raw: i32 = (n.note_num as i32) + (part.transpose as i32);
                    let note: u8 = if raw < 0 { 0 } else if raw > 127 { 127 } else { raw as u8 };
                    let base = dynamic_to_velocity(dynamic_type);
                    let velocity = calculate_velocity(base, 0, Some(part.part_velocity as u8));
                    let delta: u32 = if n.play_time_delta < 0 { 0 } else { n.play_time_delta as u32 };
                    let on: u32 = start + delta;
                    let dur: u32 = n.play_dur as u32;
                    let off: u32 = on + if dur < 1 { 1 } else { dur };
                    evs.push(TimedEvent { time: on, event: MidiEvent::NoteOn { channel, note, velocity } });
                    evs.push(TimedEvent { time: off, event: MidiEvent::NoteOff { channel, note } });
                    proof {
                        assert(channel == staff_channel(n.header.staffn as int));
                        assert(velocity == note_velocity(dynamic_type, parts@[p as int].part_velocity));
                        assert(evs@ =~= before + one_note_events(parts@, start as int, dynamic_type, n));
                    }
                },
                None => {},
            }
        }
        proof {
            assert(evs@ =~= before + one_note_events(parts@, start as int, dynamic_type, n));
            assert(evs@ =~= e0 + note_events(parts@, start as int, dynamic_type, notes@.take(i + 1)));
        }
        i = i + 1;
    }
    assert(notes@.take(notes@.len() as int) =~= notes@);
}

/// The MIDI time signature denominator (see `midi_denominator`).
fn midi_denominator_of(d: i8) -> (r: u8)
    ensures
        r == midi_denominator(d),
{
    match d {
        1 => 0,
        2 => 1,
        4 => 2,
        8 => 3,
        16 => 4,
        32 => 5,
        _ => 2,
    }
}

/// Apply one object (see `export_step`): append its events, return the new
/// measure time.
fn export_object(score: &InterpretedScore, obj: &InterpretedObject, time: u32, dynamic_type: i8, evs: &mut Vec<TimedEvent>) -> (r: u32)
    requires
        export_step_fits(*score, time as int, *obj),
    ensures
        r as int == export_step(*score, time as int, dynamic_type, *obj).0,
        final(evs)@ == old(evs)@ + export_step(*score, time as int, dynamic_type, *obj).1,
{
    let ghost e0 = evs@;
    let key: Link = obj.header.first_sub_obj;
    match &obj.data {
        ObjData::Measure(m) => {
            assert(e0 + Seq::<TimedEvent>::empty() =~= e0);
            #[verifier::truncate] (m.l_time_stamp as u32)
        },
        ObjData::Tempo(tp) => {
            if !tp.no_mm && tp.tempo_mm > 0 {
                let tempo_us = bpm_to_microseconds(tp.tempo_mm as u32);
                evs.push(TimedEvent { time, event: MidiEvent::SetTempo { tempo_us } });
                assert(evs@ =~= e0 + export_step(*score, time as int, dynamic_type, *obj).1);
            } else {
                assert(e0 + Seq::<TimedEvent>::empty() =~= e0);
            }
            time
        },
        ObjData::TimeSig(_) => {
            match score.timesigs.get(&key) {
                Some(list) => {
                    if list.len() > 0 {
                        let ts = list[0];
                        let denominator = midi_denominator_of(ts.denominator);
                        evs.push(TimedEvent {
                            time,
                            event: MidiEvent::TimeSignature {
                                numerator: #[verifier::truncate] (ts.numerator as u8),
                                denominator,
                                clocks_per_quarter: 24,
                            },
                        });
                        assert(evs@ =~= e0 + export_step(*score, time as int, dynamic_type, *obj).1);
                    } else {
                        assert(e0 + Seq::<TimedEvent>::empty() =~= e0);
                    }
                },
                None => {
                    assert(e0 + Seq::<TimedEvent>::empty() =~= e0);
                },
            }
            time
        },
        ObjData::KeySig(_) => {
            match score.keysigs.get(&key) {
                Some(list) => {
                    if list.len() > 0 {
                        let ks = list[0];
                        let sharps_flats = ks_info_to_midi_sf(&ks.ks_info);
                        evs.push(TimedEvent { time, event: MidiEvent::KeySignature { sharps_flats, is_minor: 0 } });
                        assert(evs@ =~= e0 + export_step(*score, time as int, dynamic_type, *obj).1);
                    } else {
                        assert(e0 + Seq::<TimedEvent>::empty() =~= e0);
                    }
                },
                None => {
                    assert(e0 + Seq::<TimedEvent>::empty() =~= e0);
                },
            }
            time
        },
        ObjData::Sync(sy) => {
            let start: u32 = time + sy.time_stamp as u32;
            match score.notes.get(&key) {
                Some(list) => {
                    push_note_events(&score.part_infos, start, dynamic_type, list, evs);
                },
                None => {
                    assert(e0 + Seq::<TimedEvent>::empty() =~= e0);
                },
            }
            time
        },
        _ => {
            assert(e0 + Seq::<TimedEvent>::empty() =~= e0);
            time
        },
    }
}

impl MidiExporter {
    /// Add the events of a score and order all events by time (see
    /// `score_events` and `sort_by_time`). A note plays at the velocity of
    /// the last dynamic mark before it (mezzo-forte before any) plus its
    /// part's offset.
    pub fn export(&mut self, score: &InterpretedScore)
        requires
            export_fits(*score),
        ensures
            final(self).default_tempo == old(self).default_tempo,
            final(self).timed_events@ == sort_by_time(old(self).timed_events@ + score_events(*score, old(self).default_tempo)),
    {
        let mut evs: Vec<TimedEvent> = Vec::new();
        let initial_tempo_us = bpm_to_microseconds(self.default_tempo);
        evs.push(TimedEvent { time: 0, event: MidiEvent::SetTempo { tempo_us: initial_tempo_us } });
        let ghost head = evs@;
        let mut p: usize = 0;
        while p < score.part_infos.len()
            invariant
                p <= score.part_infos@.len(),
                evs@ == head + parts_setup_events(score.part_infos@.take(p as int)),
            decreases score.part_infos.len() - p,
        {
            let part = &score.part_infos[p];
            let ghost before = evs@;
            let channel = part.channel;
            if part.bank_number0 > 0 {
                evs.push(TimedEvent { time: 0, event: MidiEvent::BankSelect { channel, bank: part.bank_number0 } });
            }
            if part.bank_number32 > 0 {
                evs.push(TimedEvent { time: 0, event: MidiEvent::BankSelect { channel, bank: part.bank_number32 } });
            }
            evs.push(TimedEvent { time: 0, event: MidiEvent::ProgramChange { channel, program: part.patch_num } });
            proof {
                assert(evs@ =~= before + part_setup_events(score.part_infos@[p as int]));
                assert(score.part_infos@.take(p + 1).drop_last() =~= score.part_infos@.take(p as int));
                assert(score.part_infos@.take(p + 1).last() == score.part_infos@[p as int]);
                assert(evs@ =~= head + parts_setup_events(score.part_infos@.take(p + 1)));
            }
            p = p + 1;
        }
        assert(score.part_infos@.take(score.part_infos@.len() as int) =~= score.part_infos@);
        let ghost setup = evs@;
        let order = score.walk();
        let mut time: u32 = 0;
        let mut dynamic_type: i8 = 6;
        let mut i: usize = 0;
        while i < order.len()
            invariant
                order@ == score.walk_order(),
                i <= order@.len(),
                dynamic_type == dynamic_after(*score, i as int),
                forall|j: int| 0 <= j < order@.len() ==> (#[trigger] order@[j] as int) < score.objects@.len(),
                export_fits(*score),
                time as int == export_fold(*score, i as int).0,
                evs@ == setup + export_fold(*score, i as int).1,
            decreases order.len() - i,
        {
            let obj = &score.objects[order[i] as usize];
            proof {
                assert(*obj == score.obj_at(score.walk_order()[i as int]));
                assert(export_step_fits(*score, export_fold(*score, i as int).0, score.obj_at(score.walk_order()[i as int])));
            }
            let ghost before = evs@;
            time = export_object(score, obj, time, dynamic_type, &mut evs);
            if let ObjData::Dynamic(d) = obj.data {
                dynamic_type = d.dynamic_type;
            }
            proof {
                assert(evs@ =~= setup + export_fold(*score, i + 1).1);
            }
            i = i + 1;
        }
        let mut all: Vec<TimedEvent> = Vec::new();
        std::mem::swap(&mut all, &mut self.timed_events);
        let ghost old_events = all@;
        all.append(&mut evs);
        assert(all@ =~= old_events + score_events(*score, self.default_tempo));
        self.timed_events = sort_events_by_time(&all);
    }
}

/// The Standard MIDI File of a score: the events of a new exporter (tempo
/// 120) after `export`, written by `to_smf`.
pub fn export_to_midi(score: &InterpretedScore) -> (r: Vec<u8>)
    requires
        export_fits(*score),
        forall|i: int| 0 <= i < score.part_infos@.len() ==> #[trigger] score.part_infos@[i].channel < 255,
    ensures
        r@ == smf_bytes(sort_by_time(score_events(*score, 120))),
{
    let mut exporter = MidiExporter::new();
    exporter.export(score);
    proof {
        assert(Seq::<TimedEvent>::empty() + score_events(*score, 120) =~= score_events(*score, 120));
        lemma_sort_by_time(score_events(*score, 120));
        lemma_score_events_channels(*score);
        lemma_channels_fit_sorted(score_events(*score, 120));
    }
    exporter.to_smf()
}

proof fn lemma_channels_fit_add(a: Seq<TimedEvent>, b: Seq<TimedEvent>)
    requires
        channels_fit(a),
        channels_fit(b),
    ensures
        channels_fit(a + b),
{
    assert forall|i: int| 0 <= i < (a + b).len() implies match #[trigger] event_channel((a + b)[i].event) {
        Some(c) => c < 255,
        None => true,
    } by {
        if i < a.len() {
            assert((a + b)[i] == a[i]);
        } else {
            assert((a + b)[i] == b[i - a.len()]);
        }
    }
}

proof fn lemma_channels_fit_sorted(s: Seq<TimedEvent>)
    requires
        channels_fit(s),
    ensures
        channels_fit(sort_by_time(s)),
    decreases s.len(),
{
    if s.len() > 0 {
        let p = s.drop_last();
        assert forall|i: int| 0 <= i < p.len() implies match #[trigger] event_channel(p[i].event) {
            Some(c) => c < 255,
            None => true,
        } by {
            assert(p[i] == s[i]);
        }
        lemma_channels_fit_sorted(p);
        let r = sort_by_time(p);
        let e = s.last();
        assert(match event_channel(s[s.len() - 1].event) { Some(c) => c < 255, None => true });
        let k = upper_from(r, e.time, 0);
        lemma_upper_from(r, e.time, 0);
        let q = insert_by_time(r, e);
        assert forall|i: int| 0 <= i < q.len() implies match #[trigger] event_channel(q[i].event) {
            Some(c) => c < 255,
            None => true,
        } by {
            if i < k {
                assert(q[i] == r[i]);
            } else if i > k {
                assert(q[i] == r[i - 1]);
            }
        }
    }
}

proof fn lemma_note_events_channels(parts: Seq<PartInfo>, start: int, dynamic_type: i8, notes: Seq<ANote>)
    ensures
        channels_fit(note_events(parts, start, dynamic_type, notes)),
    decreases notes.len(),
{
    if notes.len() > 0 {
        lemma_note_events_channels(parts, start, dynamic_type, notes.drop_last());
        let one = one_note_events(parts, start, dynamic_type, notes.last());
        assert forall|i: int| 0 <= i < one.len() implies match #[trigger] event_channel(one[i].event) {
            Some(c) => c < 255,
            None => true,
        } by {}
        lemma_channels_fit_add(note_events(parts, start, dynamic_type, notes.drop_last()), one);
    }
}

proof fn lemma_export_fold_channels(score: InterpretedScore, n: int)
    ensures
        channels_fit(export_fold(score, n).1),
    decreases n,
{
    if n > 0 {
        lemma_export_fold_channels(score, n - 1);
        let prev = export_fold(score, n - 1);
        let obj = score.obj_at(score.walk_order()[n - 1]);
        let step = export_step(score, prev.0, dynamic_after(score, n - 1), obj);
        match obj.data {
            ObjData::Sync(sy) => {
                let key = obj.header.first_sub_obj;
                if score.notes@.contains_key(key) {
                    lemma_note_events_channels(score.part_infos@, prev.0 + sy.time_stamp as int, dynamic_after(score, n - 1), score.notes@[key]@);
                }
            },
            _ => {},
        }
        assert forall|i: int| 0 <= i < step.1.len() implies match #[trigger] event_channel(step.1[i].event) {
            Some(c) => c < 255,
            None => true,
        } by {
            match obj.data {
                ObjData::Sync(_) => {},
                _ => {},
            }
        }
        lemma_channels_fit_add(prev.1, step.1);
    }
}

proof fn lemma_parts_setup_channels(parts: Seq<PartInfo>)
    requires
        forall|i: int| 0 <= i < parts.len() ==> #[trigger] parts[i].channel < 255,
    ensures
        channels_fit(parts_setup_events(parts)),
    decreases parts.len(),
{
    if parts.len() > 0 {
        let p = parts.drop_last();
        assert forall|i: int| 0 <= i < p.len() implies #[trigger] p[i].channel < 255 by {
            assert(p[i] == parts[i]);
        }
        lemma_parts_setup_channels(p);
        let last = parts.last();
        assert(last.channel < 255);
        let one = part_setup_events(last);
        assert forall|i: int| 0 <= i < one.len() implies match #[trigger] event_channel(one[i].event) {
            Some(c) => c < 255,
            None => true,
        } by {}
        lemma_channels_fit_add(parts_setup_events(p), one);
    }
}

proof fn lemma_score_events_channels(score: InterpretedScore)
    requires
        forall|i: int| 0 <= i < score.part_infos@.len() ==> #[trigger] score.part_infos@[i].channel < 255,
    ensures
        channels_fit(score_events(score, 120)),
{
    let head = seq![TimedEvent { time: 0, event: MidiEvent::SetTempo { tempo_us: spec_bpm_us(120) as u32 } }];
    assert forall|i: int| 0 <= i < head.len() implies match #[trigger] event_channel(head[i].event) {
        Some(c) => c < 255,
        None => true,
    } by {}
    lemma_parts_setup_channels(score.part_infos@);
    lemma_export_fold_channels(score, score.walk_order().len() as int);
    lemma_channels_fit_add(head, parts_setup_events(score.part_infos@));
    lemma_channels_fit_add(head + parts_setup_events(score.part_infos@), export_fold(score, score.walk_order().len() as int).1);
}

/// A time signature whose denominator is a power of two from 1 to 32 is
/// exported as a single time-signature event at the current time, with its
/// numerator and the exponent `k` of its denominator, `2^k == denominator`,
/// and 24 MIDI clocks per quarter.
pub proof fn lemma_time_signature_denominator_exponent(
    score: InterpretedScore,
    time: int,
    dynamic_type: i8,
    obj: InterpretedObject,
)
    requires
        obj.data is TimeSig,
        score.timesigs@.contains_key(obj.header.first_sub_obj),
        score.timesigs@[obj.header.first_sub_obj]@.len() > 0,
        ({
            let d = score.timesigs@[obj.header.first_sub_obj]@[0].denominator;
            d == 1 || d == 2 || d == 4 || d == 8 || d == 16 || d == 32
        }),
    ensures
        ({
            let ts = score.timesigs@[obj.header.first_sub_obj]@[0];
            let evs = export_step(score, time, dynamic_type, obj).1;
            &&& export_step(score, time, dynamic_type, obj).0 == time
            &&& evs.len() == 1
            &&& evs[0].time == time as u32
            &&& evs[0].event matches MidiEvent::TimeSignature { numerator, denominator, clocks_per_quarter }
                && numerator == ts.numerator as u8
                && crate::duration::pow2(denominator as nat) == ts.denominator as int
                && clocks_per_quarter == 24
        }),
{
    reveal_with_fuel(crate::duration::pow2, 6);
}

} // verus!
