//! Basic types of the Nightingale data model: coordinate types, points and
//! rectangles, key and time signature records, object types, text styles,
//! voice and part records.
//!
//! Coordinates come in three systems: DDIST (1/16 point), STDIST (1/8 staff
//! line) and QDIST (1/4 staff space). One staff interline space is
//! `STD_LINEHT` STDIST units.
use vstd::prelude::*;

verus! {

/// Drawing distance, resolution 1/16 point.
pub type Ddist = i16;

/// Long drawing distance, resolution 1/16 point.
pub type LongDdist = i32;

/// Staff distance, resolution 1/8 staff line.
pub type Stdist = i16;

/// Long staff distance, resolution 1/8 space.
pub type LongStdist = i32;

/// Quarter-space distance, resolution 1/4 space.
pub type Qdist = i16;

/// Short staff distance, resolution 1/8 space.
pub type ShortStd = i8;

/// Short quarter-space distance, resolution 1/4 space.
pub type ShortQd = i8;

/// Short drawing distance, resolution 1/16 point.
pub type ShortDdist = i8;

/// STDIST units per standard staff interline space.
pub const STD_LINEHT: i16 = 8;

/// String offset into the string pool.
pub type StringOffset = i32;

/// Unsigned 16-bit word.
pub type Word = u16;

/// Unsigned 32-bit double word.
pub type DoubleWord = u32;

/// Heap index: a link to an object or subobject; 0 is the null link.
pub type Link = u16;

/// Null link.
pub const NILINK: Link = 0;

/// Heap descriptor for object storage.
#[derive(Debug, Clone, PartialEq, Eq)]
pub struct Heap {
    /// Handle to the floating array of objects.
    pub block: i32,
    /// Size in bytes of each object in the array.
    pub obj_size: i16,
    /// Type of object for this heap.
    pub obj_type: i16,
    /// Index of the head of the free list.
    pub first_free: Link,
    /// Maximum number of objects in the heap block.
    pub n_objs: u16,
    /// Size of the free list.
    pub n_free: u16,
    /// Nesting lock level: greater than 0 means locked.
    pub lock_level: i16,
}

/// Point in DDIST coordinates (vertical, horizontal).
#[derive(Debug, Clone, Copy, PartialEq, Eq, Default)]
pub struct DPoint {
    /// Vertical coordinate.
    pub v: Ddist,
    /// Horizontal coordinate.
    pub h: Ddist,
}

/// Rectangle in DDIST coordinates.
#[derive(Debug, Clone, Copy, PartialEq, Eq, Default)]
pub struct DRect {
    /// Top edge.
    pub top: Ddist,
    /// Left edge.
    pub left: Ddist,
    /// Bottom edge.
    pub bottom: Ddist,
    /// Right edge.
    pub right: Ddist,
}

/// QuickDraw-style point with i16 coordinates.
#[derive(Debug, Clone, Copy, PartialEq, Eq, Default)]
pub struct Point {
    /// Vertical coordinate.
    pub v: i16,
    /// Horizontal coordinate.
    pub h: i16,
}

/// QuickDraw-style rectangle with i16 coordinates.
#[derive(Debug, Clone, Copy, PartialEq, Eq, Default)]
pub struct Rect {
    /// Top edge.
    pub top: i16,
    /// Left edge.
    pub left: i16,
    /// Bottom edge.
    pub bottom: i16,
    /// Right edge.
    pub right: i16,
}

/// Maximum number of items in a key signature.
pub const MAX_KSITEMS: usize = 7;

/// One sharp or flat in a key signature.
#[derive(Debug, Clone, Copy, PartialEq, Eq, Default)]
pub struct KsItem {
    /// Letter code: A=5, B=4, C=3, D=2, E=1, F=0, G=6.
    pub letcode: i8,
    /// Nonzero if sharp, zero if flat.
    pub sharp: u8,
}

/// A complete key signature.
#[derive(Debug, Clone, Copy, PartialEq, Eq)]
pub struct KsInfo {
    /// The sharps and flats of the key signature.
    pub ks_item: [KsItem; 7],
    /// Number of sharps and flats in use.
    pub n_ks_items: i8,
}

impl KsInfo {
    /// The empty key signature: no items, every slot zeroed.
    pub open spec fn empty() -> KsInfo {
        let k = KsItem { letcode: 0, sharp: 0 };
        KsInfo { ks_item: [k, k, k, k, k, k, k], n_ks_items: 0 }
    }
}

impl Default for KsInfo {
    fn default() -> (r: Self)
        ensures
            r == KsInfo::empty(),
    {
        let r = KsInfo { ks_item: [KsItem { letcode: 0, sharp: 0 }; 7], n_ks_items: 0 };
        assert(r.ks_item@ =~= KsInfo::empty().ks_item@);
        assert(r.ks_item == KsInfo::empty().ks_item);
        r
    }
}

/// Time signature information.
#[derive(Debug, Clone, Copy, PartialEq, Eq, Default)]
pub struct TsInfo {
    /// Time signature type.
    pub ts_type: i8,
    /// Numerator.
    pub numerator: i8,
    /// Denominator.
    pub denominator: i8,
}

/// Object types of the Nightingale data structure, in heap order.
#[derive(Debug, Clone, Copy, PartialEq, Eq, Hash)]
pub enum ObjectType {
    /// Document header object.
    Header,
    /// Tail marker object.
    Tail,
    /// Note/rest synchronization object.
    Sync,
    /// Repeat ending marker.
    RptEnd,
    /// Page break.
    Page,
    /// System break.
    System,
    /// Staff object.
    Staff,
    /// Measure bar.
    Measure,
    /// Clef symbol.
    Clef,
    /// Key signature.
    KeySig,
    /// Time signature.
    TimeSig,
    /// Beam group.
    BeamSet,
    /// Staff/system connector.
    Connect,
    /// Dynamic marking.
    Dynamic,
    /// Note modifier.
    ModNR,
    /// Graphic object.
    Graphic,
    /// Ottava.
    Ottava,
    /// Slur or set of ties.
    Slur,
    /// Tuplet.
    Tuplet,
    /// Grace note sync.
    GrSync,
    /// Tempo marking.
    Tempo,
    /// Spacer object.
    Spacer,
    /// Ending bracket.
    Ending,
    /// Pseudo-measure.
    PsMeas,
    /// Generic object (last heap).
    Obj,
}

/// First object type value.
pub const LOW_TYPE: u16 = 0;

/// One past the highest object type value.
pub const HIGH_TYPE: u16 = 25;

/// The numeric code of an object type (its position in heap order).
pub open spec fn object_type_code(t: ObjectType) -> u16 {
    match t {
        ObjectType::Header => 0,
        ObjectType::Tail => 1,
        ObjectType::Sync => 2,
        ObjectType::RptEnd => 3,
        ObjectType::Page => 4,
        ObjectType::System => 5,
        ObjectType::Staff => 6,
        ObjectType::Measure => 7,
        ObjectType::Clef => 8,
        ObjectType::KeySig => 9,
        ObjectType::TimeSig => 10,
        ObjectType::BeamSet => 11,
        ObjectType::Connect => 12,
        ObjectType::Dynamic => 13,
        ObjectType::ModNR => 14,
        ObjectType::Graphic => 15,
        ObjectType::Ottava => 16,
        ObjectType::Slur => 17,
        ObjectType::Tuplet => 18,
        ObjectType::GrSync => 19,
        ObjectType::Tempo => 20,
        ObjectType::Spacer => 21,
        ObjectType::Ending => 22,
        ObjectType::PsMeas => 23,
        ObjectType::Obj => 24,
    }
}

impl ObjectType {
    /// Convert a numeric code to an object type; `None` when the code is 25 or more.
    pub fn from_u16(value: u16) -> (r: Option<Self>)
        ensures
            r is None <==> value >= HIGH_TYPE,
            r matches Some(t) ==> object_type_code(t) == value,
    {
        match value {
            0 => Some(ObjectType::Header),
            1 => Some(ObjectType::Tail),
            2 => Some(ObjectType::Sync),
            3 => Some(ObjectType::RptEnd),
            4 => Some(ObjectType::Page),
            5 => Some(ObjectType::System),
            6 => Some(ObjectType::Staff),
            7 => Some(ObjectType::Measure),
            8 => Some(ObjectType::Clef),
            9 => Some(ObjectType::KeySig),
            10 => Some(ObjectType::TimeSig),
            11 => Some(ObjectType::BeamSet),
            12 => Some(ObjectType::Connect),
            13 => Some(ObjectType::Dynamic),
            14 => Some(ObjectType::ModNR),
            15 => Some(ObjectType::Graphic),
            16 => Some(ObjectType::Ottava),
            17 => Some(ObjectType::Slur),
            18 => Some(ObjectType::Tuplet),
            19 => Some(ObjectType::GrSync),
            20 => Some(ObjectType::Tempo),
            21 => Some(ObjectType::Spacer),
            22 => Some(ObjectType::Ending),
            23 => Some(ObjectType::PsMeas),
            24 => Some(ObjectType::Obj),
            _ => None,
        }
    }
}

/// Every object type converts back from its own code, and distinct types
/// have distinct codes below `HIGH_TYPE`.
pub proof fn lemma_object_type_code_roundtrip(t: ObjectType, u: ObjectType)
    ensures
        object_type_code(t) < HIGH_TYPE,
        object_type_code(t) == object_type_code(u) ==> t == u,
{
}

/// Window types.
#[derive(Debug, Clone, Copy, PartialEq, Eq)]
pub enum WindowType {
    /// Detail/score window.
    Detail,
    /// Palette window.
    Palette,
    /// Keyboard window.
    Keyboard,
}

impl WindowType {
    /// The numeric code of the window type: Detail 1, Palette 2, Keyboard 3.
    pub fn as_u8(&self) -> (r: u8)
        ensures
            r == match *self {
                WindowType::Detail => 1u8,
                WindowType::Palette => 2u8,
                WindowType::Keyboard => 3u8,
            },
    {
        match self {
            WindowType::Detail => 1,
            WindowType::Palette => 2,
            WindowType::Keyboard => 3,
        }
    }
}

/// Which part names label the left ends of systems.
#[derive(Debug, Clone, Copy, PartialEq, Eq)]
pub enum NamesType {
    /// No names displayed.
    NoNames,
    /// Abbreviated names.
    AbbrevNames,
    /// Full names.
    FullNames,
}

impl NamesType {
    /// The numeric code of the names type: NoNames 0, AbbrevNames 1, FullNames 2.
    pub fn as_u8(&self) -> (r: u8)
        ensures
            r == match *self {
                NamesType::NoNames => 0u8,
                NamesType::AbbrevNames => 1u8,
                NamesType::FullNames => 2u8,
            },
    {
        match self {
            NamesType::NoNames => 0,
            NamesType::AbbrevNames => 1,
            NamesType::FullNames => 2,
        }
    }
}

/// Largest names type code.
pub const MAX_NAMES_TYPE: u8 = 2;

/// Text style descriptor.
#[derive(Debug, Clone, PartialEq, Eq)]
pub struct TextStyle {
    /// Default font name: Pascal string (length byte and up to 31 characters).
    pub font_name: [u8; 32],
    /// Filler for alignment.
    pub filler2: u16,
    /// True means lyric spacing.
    pub lyric: u16,
    /// Enclosure type.
    pub enclosure: u16,
    /// True if size is relative to staff size.
    pub rel_f_size: u16,
    /// If `rel_f_size`, small..large code; else point size.
    pub font_size: u16,
    /// Font style flags.
    pub font_style: i16,
}

/// Voice information descriptor.
#[derive(Debug, Clone, Copy, PartialEq, Eq, Default)]
pub struct VoiceInfo {
    /// Number of the part using the voice, or 0 if unused.
    pub partn: u8,
    /// Voice role: upper, lower, single or cross-staff.
    pub voice_role: u8,
    /// Voice number within the part.
    pub rel_voice: u8,
}

/// Obsolete device identifier, kept for file compatibility.
pub type FmsUniqueId = [u8; 4];

/// Obsolete destination record, kept for file compatibility.
#[derive(Debug, Clone, PartialEq, Eq)]
pub struct FmsDestinationMatch {
    /// Raw bytes of the record.
    pub data: [u8; 280],
}

/// Part (instrument or voice) information.
#[derive(Debug, Clone, PartialEq, Eq)]
pub struct PartInfo {
    /// Index of the next subobject.
    pub next: Link,
    /// MIDI playback velocity offset.
    pub part_velocity: i8,
    /// Index of the first staff of the part.
    pub first_staff: i8,
    /// MIDI program number.
    pub patch_num: u8,
    /// Index of the last staff of the part.
    pub last_staff: i8,
    /// MIDI channel number.
    pub channel: u8,
    /// Transposition in semitones.
    pub transpose: i8,
    /// MIDI note number of the lowest playable note.
    pub lo_key_num: i16,
    /// MIDI note number of the highest playable note.
    pub hi_key_num: i16,
    /// Full name, C string.
    pub name: [u8; 32],
    /// Short name, C string.
    pub short_name: [u8; 12],
    /// Name of the highest playable note.
    pub hi_key_name: i8,
    /// Accidental of the highest playable note.
    pub hi_key_acc: i8,
    /// Name of the transposition.
    pub tran_name: i8,
    /// Accidental of the transposition.
    pub tran_acc: i8,
    /// Name of the lowest playable note.
    pub lo_key_name: i8,
    /// Accidental of the lowest playable note.
    pub lo_key_acc: i8,
    /// Bank number for MIDI controller 0.
    pub bank_number0: u8,
    /// Bank number for MIDI controller 32.
    pub bank_number32: u8,
    /// Obsolete output device.
    pub fms_output_device: FmsUniqueId,
    /// Obsolete output destination.
    pub fms_output_destination: FmsDestinationMatch,
}

} // verus!
