//! Document and score headers of Nightingale .ngl files (N105 format).
//!
//! An N105 file starts with the four bytes "N105", a 4-byte timestamp, the
//! 72-byte document header at offset 8 and the 2148-byte score header at
//! offset 80. All multi-byte values are big-endian; several fields are bit
//! fields packed most significant bit first.
use vstd::prelude::*;
use crate::basic_types::{Ddist, Link, Point, Rect, StringOffset, VoiceInfo};
use crate::limits::MAX_SCOREFONTS;
use crate::text::{decimal, push_decimal};

verus! {

/// Size of the document header in bytes.
pub const DOC_HDR_SIZE: usize = 72;

/// Size of the N105 score header in bytes.
pub const SCORE_HDR_SIZE_N105: usize = 2148;

/// Offset of the document header in an N105 file.
pub const DOC_HDR_OFFSET: usize = 8;

/// Offset of the score header in an N105 file.
pub const SCORE_HDR_OFFSET: usize = 80;

/// Number of text style records in the score header.
pub const N_FONT_RECORDS: usize = 15;

/// Size of a text style record in the N105 score header.
pub const TEXTSTYLE_SIZE_N105: usize = 36;

/// Size of a font table item: a 2-byte font ID and a 32-byte name.
pub const FONTITEM_SIZE: usize = 34;

/// Number of entries of the spacing map (duration codes 1..=9).
pub const MAX_L_DUR: usize = 9;

/// The big-endian 16-bit value at offset `o`.
pub open spec fn be_u16_at(d: Seq<u8>, o: int) -> u16 {
    (d[o] as int * 256 + d[o + 1] as int) as u16
}

/// The big-endian signed 16-bit value at offset `o`.
pub open spec fn be_i16_at(d: Seq<u8>, o: int) -> i16 {
    be_u16_at(d, o) as i16
}

/// The big-endian signed 32-bit value at offset `o`.
pub open spec fn be_i32_at(d: Seq<u8>, o: int) -> i32 {
    ((d[o] as int * 0x1000000 + d[o + 1] as int * 0x10000 + d[o + 2] as int * 0x100 + d[o + 3] as int) as u32) as i32
}

/// A three-byte voice record at offset `o`.
pub open spec fn voice_at(d: Seq<u8>, o: int) -> VoiceInfo {
    VoiceInfo { partn: d[o], voice_role: d[o + 1], rel_voice: d[o + 2] }
}

/// Text style bit field: filler, the top five bits.
pub open spec fn style_filler(b: u16) -> u16 {
    (b >> 11u16) & 0x1Fu16
}

/// Text style bit field: lyric flag.
pub open spec fn style_lyric(b: u16) -> u16 {
    (b >> 10u16) & 0x01u16
}

/// Text style bit field: enclosure, two bits.
pub open spec fn style_enclosure(b: u16) -> u16 {
    (b >> 8u16) & 0x03u16
}

/// Text style bit field: relative-size flag.
pub open spec fn style_rel_f_size(b: u16) -> u16 {
    (b >> 7u16) & 0x01u16
}

/// Text style bit field: font size, the low seven bits.
pub open spec fn style_font_size(b: u16) -> u16 {
    b & 0x7Fu16
}

/// Why a header could not be read.
#[derive(Debug, Clone, Copy, PartialEq, Eq)]
pub enum HeaderError {
    /// The data holds fewer bytes than the header needs.
    TooShort { needed: usize, got: usize },
}

/// Document header: generic fields for any document program (72 bytes).
#[derive(Debug, Clone, PartialEq, Eq)]
pub struct DocumentHeader {
    /// Current origin of document window
    pub origin: Point,
    /// Size of virtual paper sheet in current magnification (pixels)
    pub paper_rect: Rect,
    /// Size of paper sheet (points)
    pub orig_paper_rect: Rect,
    /// (unused) Holds position during pick mode
    pub hold_origin: Point,
    /// Size of area within margins on sheet (points)
    pub margin_rect: Rect,
    /// Where in QuickDraw space to place sheet array
    pub sheet_origin: Point,
    /// Internal sheet [0, ..., numSheets)
    pub current_sheet: i16,
    /// Number of sheets in document (visible or not)
    pub num_sheets: i16,
    /// To be shown in upper left of sheet array
    pub first_sheet: i16,
    /// Page number of zero'th sheet
    pub first_page_number: i16,
    /// First printed page number
    pub start_page_number: i16,
    /// Size of sheet array (rows)
    pub num_rows: i16,
    /// Size of sheet array (columns)
    pub num_cols: i16,
    /// Current standard/custom page size from popup menu
    pub page_type: i16,
    /// Code for measurement system (from popup menu)
    pub meas_system: i16,
    /// Header/footer/pagenum margins
    pub header_footer_margins: Rect,
    /// Paper rect in window coords for current sheet (pixels)
    pub current_paper: Rect,
    /// Unused; was "Paper wider than it is high"
    pub landscape: i8,
    /// nonzero = created on a little Endian CPU
    pub little_endian: u8,
}

/// A point stored as vertical then horizontal big-endian coordinates.
pub open spec fn point_at(d: Seq<u8>, o: int) -> Point {
    Point { v: be_i16_at(d, o), h: be_i16_at(d, o + 2) }
}

/// A rectangle stored as top, left, bottom, right big-endian coordinates.
pub open spec fn rect_at(d: Seq<u8>, o: int) -> Rect {
    Rect { top: be_i16_at(d, o), left: be_i16_at(d, o + 2), bottom: be_i16_at(d, o + 4), right: be_i16_at(d, o + 6) }
}

/// The document header stored at the start of `d`, field after field.
pub open spec fn document_header_at(d: Seq<u8>) -> DocumentHeader {
    DocumentHeader {
        origin: point_at(d, 0),
        paper_rect: rect_at(d, 4),
        orig_paper_rect: rect_at(d, 12),
        hold_origin: point_at(d, 20),
        margin_rect: rect_at(d, 24),
        sheet_origin: point_at(d, 32),
        current_sheet: be_i16_at(d, 36),
        num_sheets: be_i16_at(d, 38),
        first_sheet: be_i16_at(d, 40),
        first_page_number: be_i16_at(d, 42),
        start_page_number: be_i16_at(d, 44),
        num_rows: be_i16_at(d, 46),
        num_cols: be_i16_at(d, 48),
        page_type: be_i16_at(d, 50),
        meas_system: be_i16_at(d, 52),
        header_footer_margins: rect_at(d, 54),
        current_paper: rect_at(d, 62),
        landscape: d[70] as i8,
        little_endian: d[71],
    }
}

/// Font item: maps an internal font ID to a font name.
#[derive(Debug, Clone, Copy, PartialEq, Eq)]
pub struct FontItem {
    /// Font ID number for TextFont
    pub font_id: i16,
    /// Font name: Pascal string (length byte + up to 31 chars)
    pub font_name: [u8; 32],
}

/// Score header: all Nightingale-specific document information (2148 bytes).
#[derive(Debug, Clone, PartialEq)]
pub struct ScoreHeader {
    /// Link to header object
    pub head_l: Link,
    /// Link to tail object
    pub tail_l: Link,
    /// Currently selected range start
    pub sel_start_l: Link,
    /// Currently selected range end
    pub sel_end_l: Link,
    /// Number of staves in a system
    pub nstaves: i16,
    /// Number of systems in score
    pub nsystems: i16,
    /// User comment on score (C string, 256 bytes)
    pub comment: [u8; 256],
    /// True for audio feedback on note insert
    pub note_ins_feedback: u8,
    /// 0 = when playing, send patch changes for channels
    pub dont_send_patches: u8,
    /// True if score has been saved
    pub saved: u8,
    /// True if file has been named
    pub named: u8,
    /// True if score contains any nonstructural info
    pub used: u8,
    /// True if transposed score, else C score
    pub transposed: u8,
    /// (no longer used) True if last text entered was lyric
    pub filler_sc1: u8,
    /// True for one part per MIDI channel
    pub poly_timbral: u8,
    /// (no longer used)
    pub filler_sc2: u8,
    /// Percentage of normal horizontal spacing used
    pub space_percent: i16,
    /// Standard staff size rastral no.
    pub srastral: i16,
    /// (not yet used but ready) Alternate staff size rastral no.
    pub altsrastral: i16,
    /// (unused?) playback speed in beats per minute
    pub tempo: i16,
    /// Basic MIDI channel number
    pub channel: i16,
    /// Global MIDI playback velocity offset
    pub vel_offset: i16,
    /// Index returned by String Manager
    pub header_str_offset: StringOffset,
    /// Index returned by String Manager
    pub footer_str_offset: StringOffset,
    /// True=page numbers at top of page, else bottom
    pub top_pgn: u8,
    /// 1=page numbers at left, 2=center, 3=at right
    pub h_pos_pgn: u8,
    /// True=page numbers alternately left and right
    pub alternate_pgn: u8,
    /// True=use header/footer text, not simple pagenum
    pub use_header_footer: u8,
    /// unused
    pub filler_pgn: u8,
    /// unused
    pub filler_mb: i8,
    /// unused
    pub filler2: Ddist,
    /// Amount to indent Systems other than first
    pub d_indent_other: Ddist,
    /// Code for drawing part names on first system
    pub first_names: i8,
    /// Code for drawing part names on other systems
    pub other_names: i8,
    /// Header index of most recent text style used
    pub last_global_font: i8,
    /// Horiz. pos. offset for meas. nos. (half-spaces)
    pub x_mn_offset: i8,
    /// Vert. pos. offset for meas. nos. (half-spaces)
    pub y_mn_offset: i8,
    /// Horiz. pos. offset for meas.nos. if 1st meas. in system
    pub x_sys_mn_offset: i8,
    /// True=measure numbers above staff, else below
    pub above_mn: i16,
    /// True=indent 1st meas. of system by xMNOffset
    pub sys_first_mn: i16,
    /// True=First meas. number to print is 1, else 2
    pub start_mn_print1: i16,
    /// Number of first measure
    pub first_mn_number: i16,
    /// Head of Master Page object list
    pub master_head_l: Link,
    /// Tail of Master Page object list
    pub master_tail_l: Link,
    /// unused
    pub filler1: i8,
    /// Always 15 for now
    pub n_font_records: i8,
    /// MEASURE NO. FONT: default name, size and style
    pub font_name_mn: [u8; 32],
    pub filler_mn: u16,
    pub lyric_mn: u16,
    pub enclosure_mn: u16,
    pub rel_f_size_mn: u16,
    pub font_size_mn: u16,
    pub font_style_mn: i16,
    /// PART NAME FONT: default name, size and style
    pub font_name_pn: [u8; 32],
    pub filler_pn: u16,
    pub lyric_pn: u16,
    pub enclosure_pn: u16,
    pub rel_f_size_pn: u16,
    pub font_size_pn: u16,
    pub font_style_pn: i16,
    /// REHEARSAL MARK FONT: default name, size and style
    pub font_name_rm: [u8; 32],
    pub filler_rm: u16,
    pub lyric_rm: u16,
    pub enclosure_rm: u16,
    pub rel_f_size_rm: u16,
    pub font_size_rm: u16,
    pub font_style_rm: i16,
    /// REGULAR FONT 1: default name, size and style
    pub font_name1: [u8; 32],
    pub filler_r1: u16,
    pub lyric1: u16,
    pub enclosure1: u16,
    pub rel_f_size1: u16,
    pub font_size1: u16,
    pub font_style1: i16,
    /// REGULAR FONT 2: default name, size and style
    pub font_name2: [u8; 32],
    pub filler_r2: u16,
    pub lyric2: u16,
    pub enclosure2: u16,
    pub rel_f_size2: u16,
    pub font_size2: u16,
    pub font_style2: i16,
    /// REGULAR FONT 3: default name, size and style
    pub font_name3: [u8; 32],
    pub filler_r3: u16,
    pub lyric3: u16,
    pub enclosure3: u16,
    pub rel_f_size3: u16,
    pub font_size3: u16,
    pub font_style3: i16,
    /// REGULAR FONT 4: default name, size and style
    pub font_name4: [u8; 32],
    pub filler_r4: u16,
    pub lyric4: u16,
    pub enclosure4: u16,
    pub rel_f_size4: u16,
    pub font_size4: u16,
    pub font_style4: i16,
    /// TEMPO MARK FONT: default name, size and style
    pub font_name_tm: [u8; 32],
    pub filler_tm: u16,
    pub lyric_tm: u16,
    pub enclosure_tm: u16,
    pub rel_f_size_tm: u16,
    pub font_size_tm: u16,
    pub font_style_tm: i16,
    /// CHORD SYMBOL FONT: default name, size and style
    pub font_name_cs: [u8; 32],
    pub filler_cs: u16,
    pub lyric_cs: u16,
    pub enclosure_cs: u16,
    pub rel_f_size_cs: u16,
    pub font_size_cs: u16,
    pub font_style_cs: i16,
    /// PAGE HEADER/FOOTER/NO. FONT: default name, size and style
    pub font_name_pg: [u8; 32],
    pub filler_pg: u16,
    pub lyric_pg: u16,
    pub enclosure_pg: u16,
    pub rel_f_size_pg: u16,
    pub font_size_pg: u16,
    pub font_style_pg: i16,
    /// REGULAR FONT 5: default name, size and style
    pub font_name5: [u8; 32],
    pub filler_r5: u16,
    pub lyric5: u16,
    pub enclosure5: u16,
    pub rel_f_size5: u16,
    pub font_size5: u16,
    pub font_style5: i16,
    /// REGULAR FONT 6: default name, size and style
    pub font_name6: [u8; 32],
    pub filler_r6: u16,
    pub lyric6: u16,
    pub enclosure6: u16,
    pub rel_f_size6: u16,
    pub font_size6: u16,
    pub font_style6: i16,
    /// REGULAR FONT 7: default name, size and style
    pub font_name7: [u8; 32],
    pub filler_r7: u16,
    pub lyric7: u16,
    pub enclosure7: u16,
    pub rel_f_size7: u16,
    pub font_size7: u16,
    pub font_style7: i16,
    /// REGULAR FONT 8: default name, size and style
    pub font_name8: [u8; 32],
    pub filler_r8: u16,
    pub lyric8: u16,
    pub enclosure8: u16,
    pub rel_f_size8: u16,
    pub font_size8: u16,
    pub font_style8: i16,
    /// REGULAR FONT 9: default name, size and style
    pub font_name9: [u8; 32],
    pub filler_r9: u16,
    pub lyric9: u16,
    pub enclosure9: u16,
    pub rel_f_size9: u16,
    pub font_size9: u16,
    pub font_style9: i16,
    /// Number of entries in fontTable
    pub nfonts_used: i16,
    /// To convert stored to system font nos. (20 * 34 = 680 bytes)
    pub font_table: [FontItem; MAX_SCOREFONTS],
    /// Name of this document's music font (Pascal string)
    pub mus_font_name: [u8; 32],
    /// Current reduce/enlarge magnification, 0=none
    pub magnify: i16,
    /// If sel. is empty, insertion pt's staff, else undefined
    pub sel_staff: i16,
    /// (not yet used) staff no. for meas. nos. besides stf 1
    pub other_mn_staff: i8,
    /// Show measure nos.: -=every system, 0=never, n=every nth meas.
    pub number_meas: i8,
    /// systemNum of system which contains caret (currently not defined)
    pub current_system: i16,
    /// ID of 'SPTB' resource having spacing table to use
    pub space_table: i16,
    /// Percent tightness
    pub htight: i16,
    /// unused
    pub filler_int: i16,
    /// Voice to look at, or ANYONE for all voices
    pub look_voice: i16,
    /// (unused)
    pub filler_hp: i16,
    /// (unused)
    pub filler_lp: i16,
    /// Extra space above/below staff for max. ledger lines (half-spaces)
    pub ledger_y_sp: i16,
    /// Maximum time between consec. attacks in a chord (millisec.)
    pub deflam_time: i16,
    /// Respace on symbol insert, or leave things alone?
    pub auto_respace: u8,
    /// Graphic insertion logic (else temporal)?
    pub insert_mode: u8,
    /// In beam handling, treat rests like notes?
    pub beam_rests: u8,
    /// Display with notehead graphs or in pianoroll form?
    pub graph_mode: u8,
    /// Show (with InvertSymbolHilite) lines on every Sync?
    pub show_syncs: u8,
    /// Frame systemRects (for debugging)?
    pub frame_systems: u8,
    /// unused
    pub filler_em: u8,
    /// See enum in Defs.h for values
    pub color_voices: u8,
    /// Display invisible objects?
    pub show_invis: u8,
    /// Show measures with duration/time sig. problems?
    pub show_dur_prob: u8,
    /// True if black-key notes recorded should use flats
    pub record_flats: u8,
    /// Ideal spacing of basic (undotted, non-tuplet) durations
    pub space_map: [i32; MAX_L_DUR],
    /// Amount to indent first System
    pub d_indent_first: Ddist,
    /// obsolete, was vert. "dead" space btwn Systems
    pub y_between_sys: Ddist,
    /// Descriptions of voices in use
    pub voice_tab: [VoiceInfo; 101],
    /// Expansion space to reach 256 entries
    pub expansion: [VoiceInfo; 155],
}

/// `r` holds the fields of the N105 score header stored in `data`: each
/// field read big-endian at its offset, bit fields unpacked most significant
/// bit first, and the voice expansion entries read as far as `data` reaches
/// (the others zero).
pub open spec fn parsed_score_header(data: Seq<u8>, r: ScoreHeader) -> bool {
        &&& r.head_l == be_u16_at(data, 0)
        &&& r.tail_l == be_u16_at(data, 2)
        &&& r.sel_start_l == be_u16_at(data, 4)
        &&& r.sel_end_l == be_u16_at(data, 6)
        &&& r.nstaves == be_i16_at(data, 8)
        &&& r.nsystems == be_i16_at(data, 10)
        &&& forall|i: int| 0 <= i < 256 ==> #[trigger] r.comment@[i] == data[12 + i]
        &&& r.note_ins_feedback == (data[268] >> 7u8) & 1u8
        &&& r.dont_send_patches == (data[268] >> 6u8) & 1u8
        &&& r.saved == (data[268] >> 5u8) & 1u8
        &&& r.named == (data[268] >> 4u8) & 1u8
        &&& r.used == (data[268] >> 3u8) & 1u8
        &&& r.transposed == (data[268] >> 2u8) & 1u8
        &&& r.filler_sc1 == (data[268] >> 1u8) & 1u8
        &&& r.poly_timbral == (data[268] >> 0u8) & 1u8
        &&& r.filler_sc2 == data[269]
        &&& r.space_percent == be_i16_at(data, 270)
        &&& r.srastral == be_i16_at(data, 272)
        &&& r.altsrastral == be_i16_at(data, 274)
        &&& r.tempo == be_i16_at(data, 276)
        &&& r.channel == be_i16_at(data, 278)
        &&& r.vel_offset == be_i16_at(data, 280)
        &&& r.header_str_offset == be_i32_at(data, 282)
        &&& r.footer_str_offset == be_i32_at(data, 286)
        &&& r.top_pgn == (data[290] >> 7u8) & 1u8
        &&& r.h_pos_pgn == (data[290] >> 4u8) & 7u8
        &&& r.alternate_pgn == (data[290] >> 3u8) & 1u8
        &&& r.use_header_footer == (data[290] >> 2u8) & 1u8
        &&& r.filler_pgn == (data[290] >> 0u8) & 3u8
        &&& r.filler_mb == data[291] as i8
        &&& r.filler2 == be_i16_at(data, 292)
        &&& r.d_indent_other == be_i16_at(data, 294)
        &&& r.first_names == data[296] as i8
        &&& r.other_names == data[297] as i8
        &&& r.last_global_font == data[298] as i8
        &&& r.x_mn_offset == data[299] as i8
        &&& r.y_mn_offset == data[300] as i8
        &&& r.x_sys_mn_offset == data[301] as i8
        &&& r.above_mn == ((be_u16_at(data, 302) >> 15u16) & 1u16) as i16
        &&& r.sys_first_mn == ((be_u16_at(data, 302) >> 14u16) & 1u16) as i16
        &&& r.start_mn_print1 == ((be_u16_at(data, 302) >> 13u16) & 1u16) as i16
        &&& r.first_mn_number == ((be_u16_at(data, 302) >> 0u16) & 8191u16) as i16
        &&& r.master_head_l == be_u16_at(data, 304)
        &&& r.master_tail_l == be_u16_at(data, 306)
        &&& r.filler1 == data[308] as i8
        &&& r.n_font_records == data[309] as i8
        &&& forall|i: int| 0 <= i < 32 ==> #[trigger] r.font_name_mn@[i] == data[310 + i]
        &&& r.filler_mn == style_filler(be_u16_at(data, 342))
        &&& r.lyric_mn == style_lyric(be_u16_at(data, 342))
        &&& r.enclosure_mn == style_enclosure(be_u16_at(data, 342))
        &&& r.rel_f_size_mn == style_rel_f_size(be_u16_at(data, 342))
        &&& r.font_size_mn == style_font_size(be_u16_at(data, 342))
        &&& r.font_style_mn == be_i16_at(data, 344)
        &&& forall|i: int| 0 <= i < 32 ==> #[trigger] r.font_name_pn@[i] == data[346 + i]
        &&& r.filler_pn == style_filler(be_u16_at(data, 378))
        &&& r.lyric_pn == style_lyric(be_u16_at(data, 378))
        &&& r.enclosure_pn == style_enclosure(be_u16_at(data, 378))
        &&& r.rel_f_size_pn == style_rel_f_size(be_u16_at(data, 378))
        &&& r.font_size_pn == style_font_size(be_u16_at(data, 378))
        &&& r.font_style_pn == be_i16_at(data, 380)
        &&& forall|i: int| 0 <= i < 32 ==> #[trigger] r.font_name_rm@[i] == data[382 + i]
        &&& r.filler_rm == style_filler(be_u16_at(data, 414))
        &&& r.lyric_rm == style_lyric(be_u16_at(data, 414))
        &&& r.enclosure_rm == style_enclosure(be_u16_at(data, 414))
        &&& r.rel_f_size_rm == style_rel_f_size(be_u16_at(data, 414))
        &&& r.font_size_rm == style_font_size(be_u16_at(data, 414))
        &&& r.font_style_rm == be_i16_at(data, 416)
        &&& forall|i: int| 0 <= i < 32 ==> #[trigger] r.font_name1@[i] == data[418 + i]
        &&& r.filler_r1 == style_filler(be_u16_at(data, 450))
        &&& r.lyric1 == style_lyric(be_u16_at(data, 450))
        &&& r.enclosure1 == style_enclosure(be_u16_at(data, 450))
        &&& r.rel_f_size1 == style_rel_f_size(be_u16_at(data, 450))
        &&& r.font_size1 == style_font_size(be_u16_at(data, 450))
        &&& r.font_style1 == be_i16_at(data, 452)
        &&& forall|i: int| 0 <= i < 32 ==> #[trigger] r.font_name2@[i] == data[454 + i]
        &&& r.filler_r2 == style_filler(be_u16_at(data, 486))
        &&& r.lyric2 == style_lyric(be_u16_at(data, 486))
        &&& r.enclosure2 == style_enclosure(be_u16_at(data, 486))
        &&& r.rel_f_size2 == style_rel_f_size(be_u16_at(data, 486))
        &&& r.font_size2 == style_font_size(be_u16_at(data, 486))
        &&& r.font_style2 == be_i16_at(data, 488)
        &&& forall|i: int| 0 <= i < 32 ==> #[trigger] r.font_name3@[i] == data[490 + i]
        &&& r.filler_r3 == style_filler(be_u16_at(data, 522))
        &&& r.lyric3 == style_lyric(be_u16_at(data, 522))
        &&& r.enclosure3 == style_enclosure(be_u16_at(data, 522))
        &&& r.rel_f_size3 == style_rel_f_size(be_u16_at(data, 522))
        &&& r.font_size3 == style_font_size(be_u16_at(data, 522))
        &&& r.font_style3 == be_i16_at(data, 524)
        &&& forall|i: int| 0 <= i < 32 ==> #[trigger] r.font_name4@[i] == data[526 + i]
        &&& r.filler_r4 == style_filler(be_u16_at(data, 558))
        &&& r.lyric4 == style_lyric(be_u16_at(data, 558))
        &&& r.enclosure4 == style_enclosure(be_u16_at(data, 558))
        &&& r.rel_f_size4 == style_rel_f_size(be_u16_at(data, 558))
        &&& r.font_size4 == style_font_size(be_u16_at(data, 558))
        &&& r.font_style4 == be_i16_at(data, 560)
        &&& forall|i: int| 0 <= i < 32 ==> #[trigger] r.font_name_tm@[i] == data[562 + i]
        &&& r.filler_tm == style_filler(be_u16_at(data, 594))
        &&& r.lyric_tm == style_lyric(be_u16_at(data, 594))
        &&& r.enclosure_tm == style_enclosure(be_u16_at(data, 594))
        &&& r.rel_f_size_tm == style_rel_f_size(be_u16_at(data, 594))
        &&& r.font_size_tm == style_font_size(be_u16_at(data, 594))
        &&& r.font_style_tm == be_i16_at(data, 596)
        &&& forall|i: int| 0 <= i < 32 ==> #[trigger] r.font_name_cs@[i] == data[598 + i]
        &&& r.filler_cs == style_filler(be_u16_at(data, 630))
        &&& r.lyric_cs == style_lyric(be_u16_at(data, 630))
        &&& r.enclosure_cs == style_enclosure(be_u16_at(data, 630))
        &&& r.rel_f_size_cs == style_rel_f_size(be_u16_at(data, 630))
        &&& r.font_size_cs == style_font_size(be_u16_at(data, 630))
        &&& r.font_style_cs == be_i16_at(data, 632)
        &&& forall|i: int| 0 <= i < 32 ==> #[trigger] r.font_name_pg@[i] == data[634 + i]
        &&& r.filler_pg == style_filler(be_u16_at(data, 666))
        &&& r.lyric_pg == style_lyric(be_u16_at(data, 666))
        &&& r.enclosure_pg == style_enclosure(be_u16_at(data, 666))
        &&& r.rel_f_size_pg == style_rel_f_size(be_u16_at(data, 666))
        &&& r.font_size_pg == style_font_size(be_u16_at(data, 666))
        &&& r.font_style_pg == be_i16_at(data, 668)
        &&& forall|i: int| 0 <= i < 32 ==> #[trigger] r.font_name5@[i] == data[670 + i]
        &&& r.filler_r5 == style_filler(be_u16_at(data, 702))
        &&& r.lyric5 == style_lyric(be_u16_at(data, 702))
        &&& r.enclosure5 == style_enclosure(be_u16_at(data, 702))
        &&& r.rel_f_size5 == style_rel_f_size(be_u16_at(data, 702))
        &&& r.font_size5 == style_font_size(be_u16_at(data, 702))
        &&& r.font_style5 == be_i16_at(data, 704)
        &&& forall|i: int| 0 <= i < 32 ==> #[trigger] r.font_name6@[i] == data[706 + i]
        &&& r.filler_r6 == style_filler(be_u16_at(data, 738))
        &&& r.lyric6 == style_lyric(be_u16_at(data, 738))
        &&& r.enclosure6 == style_enclosure(be_u16_at(data, 738))
        &&& r.rel_f_size6 == style_rel_f_size(be_u16_at(data, 738))
        &&& r.font_size6 == style_font_size(be_u16_at(data, 738))
        &&& r.font_style6 == be_i16_at(data, 740)
        &&& forall|i: int| 0 <= i < 32 ==> #[trigger] r.font_name7@[i] == data[742 + i]
        &&& r.filler_r7 == style_filler(be_u16_at(data, 774))
        &&& r.lyric7 == style_lyric(be_u16_at(data, 774))
        &&& r.enclosure7 == style_enclosure(be_u16_at(data, 774))
        &&& r.rel_f_size7 == style_rel_f_size(be_u16_at(data, 774))
        &&& r.font_size7 == style_font_size(be_u16_at(data, 774))
        &&& r.font_style7 == be_i16_at(data, 776)
        &&& forall|i: int| 0 <= i < 32 ==> #[trigger] r.font_name8@[i] == data[778 + i]
        &&& r.filler_r8 == style_filler(be_u16_at(data, 810))
        &&& r.lyric8 == style_lyric(be_u16_at(data, 810))
        &&& r.enclosure8 == style_enclosure(be_u16_at(data, 810))
        &&& r.rel_f_size8 == style_rel_f_size(be_u16_at(data, 810))
        &&& r.font_size8 == style_font_size(be_u16_at(data, 810))
        &&& r.font_style8 == be_i16_at(data, 812)
        &&& forall|i: int| 0 <= i < 32 ==> #[trigger] r.font_name9@[i] == data[814 + i]
        &&& r.filler_r9 == style_filler(be_u16_at(data, 846))
        &&& r.lyric9 == style_lyric(be_u16_at(data, 846))
        &&& r.enclosure9 == style_enclosure(be_u16_at(data, 846))
        &&& r.rel_f_size9 == style_rel_f_size(be_u16_at(data, 846))
        &&& r.font_size9 == style_font_size(be_u16_at(data, 846))
        &&& r.font_style9 == be_i16_at(data, 848)
        &&& r.nfonts_used == be_i16_at(data, 850)
        &&& forall|k: int| 0 <= k < 20 ==> #[trigger] r.font_table@[k].font_id == be_i16_at(data, 852 + 34 * k)
        &&& forall|k: int, i: int| 0 <= k < 20 && 0 <= i < 32 ==> #[trigger] r.font_table@[k].font_name@[i] == data[852 + 34 * k + 2 + i]
        &&& forall|i: int| 0 <= i < 32 ==> #[trigger] r.mus_font_name@[i] == data[1532 + i]
        &&& r.magnify == be_i16_at(data, 1564)
        &&& r.sel_staff == be_i16_at(data, 1566)
        &&& r.other_mn_staff == data[1568] as i8
        &&& r.number_meas == data[1569] as i8
        &&& r.current_system == be_i16_at(data, 1570)
        &&& r.space_table == be_i16_at(data, 1572)
        &&& r.htight == be_i16_at(data, 1574)
        &&& r.filler_int == be_i16_at(data, 1576)
        &&& r.look_voice == be_i16_at(data, 1578)
        &&& r.filler_hp == be_i16_at(data, 1580)
        &&& r.filler_lp == be_i16_at(data, 1582)
        &&& r.ledger_y_sp == be_i16_at(data, 1584)
        &&& r.deflam_time == be_i16_at(data, 1586)
        &&& r.auto_respace == data[1588]
        &&& r.insert_mode == data[1589]
        &&& r.beam_rests == data[1590]
        &&& r.graph_mode == data[1591]
        &&& r.show_syncs == data[1592]
        &&& r.frame_systems == data[1593]
        &&& r.filler_em == data[1594]
        &&& r.color_voices == data[1595]
        &&& r.show_invis == data[1596]
        &&& r.show_dur_prob == data[1597]
        &&& r.record_flats == data[1598]
        &&& forall|k: int| 0 <= k < 9 ==> #[trigger] r.space_map@[k] == be_i32_at(data, 1599 + 4 * k)
        &&& r.d_indent_first == be_i16_at(data, 1635)
        &&& r.y_between_sys == be_i16_at(data, 1637)
        &&& forall|k: int| 0 <= k < 101 ==> #[trigger] r.voice_tab@[k] == voice_at(data, 1639 + 3 * k)
        &&& forall|k: int| 0 <= k < 155 ==> #[trigger] r.expansion@[k] == (if 1942 + 3 * k + 3 <= data.len() { voice_at(data, 1942 + 3 * k) } else { VoiceInfo { partn: 0, voice_role: 0, rel_voice: 0 } })
}

fn read_u16_be(data: &[u8], offset: usize) -> (r: u16)
    requires
        offset + 2 <= data@.len(),
    ensures
        r == be_u16_at(data@, offset as int),
{
    let len: usize = data.len();
    let hi: u16 = data[offset] as u16;
    let lo: u16 = data[offset + 1] as u16;
    assert((hi << 8u16) | lo == hi * 256 + lo) by (bit_vector)
        requires hi < 256, lo < 256;
    (hi << 8u16) | lo
}

fn read_i16_be(data: &[u8], offset: usize) -> (r: i16)
    requires
        offset + 2 <= data@.len(),
    ensures
        r == be_i16_at(data@, offset as int),
{
    #[verifier::truncate] (read_u16_be(data, offset) as i16)
}

fn read_i32_be(data: &[u8], offset: usize) -> (r: i32)
    requires
        offset + 4 <= data@.len(),
    ensures
        r == be_i32_at(data@, offset as int),
{
    let len: usize = data.len();
    let b0: u32 = data[offset] as u32;
    let b1: u32 = data[offset + 1] as u32;
    let b2: u32 = data[offset + 2] as u32;
    let b3: u32 = data[offset + 3] as u32;
    assert((b0 << 24u32) | (b1 << 16u32) | (b2 << 8u32) | b3 == b0 * 0x1000000 + b1 * 0x10000 + b2 * 0x100 + b3) by (bit_vector)
        requires b0 < 256, b1 < 256, b2 < 256, b3 < 256;
    let v: u32 = (b0 << 24u32) | (b1 << 16u32) | (b2 << 8u32) | b3;
    #[verifier::truncate] (v as i32)
}

fn read_bytes32(data: &[u8], offset: usize) -> (r: [u8; 32])
    requires
        offset + 32 <= data@.len(),
    ensures
        forall|i: int| 0 <= i < 32 ==> #[trigger] r@[i] == data@[offset + i],
{
    let len: usize = data.len();
    let mut arr: [u8; 32] = [0u8; 32];
    let mut i: usize = 0;
    while i < 32
        invariant
            len == data@.len(),
            i <= 32,
            offset + 32 <= data@.len(),
            forall|j: int| 0 <= j < i ==> #[trigger] arr@[j] == data@[offset + j],
        decreases 32 - i,
    {
        arr.set(i, data[offset + i]);
        i = i + 1;
    }
    arr
}

fn read_bytes256(data: &[u8], offset: usize) -> (r: [u8; 256])
    requires
        offset + 256 <= data@.len(),
    ensures
        forall|i: int| 0 <= i < 256 ==> #[trigger] r@[i] == data@[offset + i],
{
    let len: usize = data.len();
    let mut arr: [u8; 256] = [0u8; 256];
    let mut i: usize = 0;
    while i < 256
        invariant
            len == data@.len(),
            i <= 256,
            offset + 256 <= data@.len(),
            forall|j: int| 0 <= j < i ==> #[trigger] arr@[j] == data@[offset + j],
        decreases 256 - i,
    {
        arr.set(i, data[offset + i]);
        i = i + 1;
    }
    arr
}

fn read_font_table(data: &[u8], offset: usize) -> (r: [FontItem; MAX_SCOREFONTS])
    requires
        offset + 34 * 20 <= data@.len(),
    ensures
        forall|k: int| 0 <= k < 20 ==> #[trigger] r@[k].font_id == be_i16_at(data@, offset + 34 * k),
        forall|k: int, i: int| 0 <= k < 20 && 0 <= i < 32 ==> #[trigger] r@[k].font_name@[i] == data@[offset + 34 * k + 2 + i],
{
    let len: usize = data.len();
    let empty = FontItem { font_id: 0, font_name: [0u8; 32] };
    let mut table: [FontItem; MAX_SCOREFONTS] = [empty; 20];
    let mut k: usize = 0;
    while k < 20
        invariant
            len == data@.len(),
            k <= 20,
            offset + 34 * 20 <= data@.len(),
            forall|j: int| 0 <= j < k ==> #[trigger] table@[j].font_id == be_i16_at(data@, offset + 34 * j),
            forall|j: int, i: int| 0 <= j < k && 0 <= i < 32 ==> #[trigger] table@[j].font_name@[i] == data@[offset + 34 * j + 2 + i],
        decreases 20 - k,
    {
        let font_id = read_i16_be(data, offset + 34 * k);
        let font_name = read_bytes32(data, offset + 34 * k + 2);
        table.set(k, FontItem { font_id, font_name });
        k = k + 1;
    }
    table
}

fn read_space_map(data: &[u8], offset: usize) -> (r: [i32; MAX_L_DUR])
    requires
        offset + 36 <= data@.len(),
    ensures
        forall|k: int| 0 <= k < 9 ==> #[trigger] r@[k] == be_i32_at(data@, offset + 4 * k),
{
    let len: usize = data.len();
    let mut map: [i32; MAX_L_DUR] = [0i32; 9];
    let mut k: usize = 0;
    while k < 9
        invariant
            len == data@.len(),
            k <= 9,
            offset + 36 <= data@.len(),
            forall|j: int| 0 <= j < k ==> #[trigger] map@[j] == be_i32_at(data@, offset + 4 * j),
        decreases 9 - k,
    {
        map.set(k, read_i32_be(data, offset + 4 * k));
        k = k + 1;
    }
    map
}

fn read_voice_tab(data: &[u8], offset: usize) -> (r: [VoiceInfo; 101])
    requires
        offset + 3 * 101 <= data@.len(),
    ensures
        forall|k: int| 0 <= k < 101 ==> #[trigger] r@[k] == voice_at(data@, offset + 3 * k),
{
    let len: usize = data.len();
    let zero = VoiceInfo { partn: 0, voice_role: 0, rel_voice: 0 };
    let mut tab: [VoiceInfo; 101] = [zero; 101];
    let mut k: usize = 0;
    while k < 101
        invariant
            len == data@.len(),
            k <= 101,
            offset + 3 * 101 <= data@.len(),
            forall|j: int| 0 <= j < k ==> #[trigger] tab@[j] == voice_at(data@, offset + 3 * j),
        decreases 101 - k,
    {
        let o = offset + 3 * k;
        tab.set(k, VoiceInfo { partn: data[o], voice_role: data[o + 1], rel_voice: data[o + 2] });
        k = k + 1;
    }
    tab
}

fn read_expansion(data: &[u8], offset: usize) -> (r: [VoiceInfo; 155])
    requires
        offset <= data@.len(),
        offset < 0x1_0000,
    ensures
        forall|k: int| 0 <= k < 155 ==> #[trigger] r@[k] == (if offset + 3 * k + 3 <= data@.len() {
            voice_at(data@, offset + 3 * k)
        } else {
            VoiceInfo { partn: 0, voice_role: 0, rel_voice: 0 }
        }),
{
    let zero = VoiceInfo { partn: 0, voice_role: 0, rel_voice: 0 };
    let mut tab: [VoiceInfo; 155] = [zero; 155];
    let avail: usize = (data.len() - offset) / 3;
    let count: usize = if avail < 155 { avail } else { 155 };
    let mut k: usize = 0;
    while k < count
        invariant
            k <= count <= 155,
            count == if (data@.len() - offset) / 3 < 155 { (data@.len() - offset) / 3 } else { 155 },
            offset <= data@.len(),
            offset < 0x1_0000,
            forall|j: int| 0 <= j < k ==> #[trigger] tab@[j] == voice_at(data@, offset + 3 * j),
            forall|j: int| k <= j < 155 ==> #[trigger] tab@[j] == zero,
        decreases count - k,
    {
        let o = offset + 3 * k;
        tab.set(k, VoiceInfo { partn: data[o], voice_role: data[o + 1], rel_voice: data[o + 2] });
        k = k + 1;
    }
    assert forall|j: int| 0 <= j < 155 implies #[trigger] tab@[j] == (if offset + 3 * j + 3 <= data@.len() {
        voice_at(data@, offset + 3 * j)
    } else {
        zero
    }) by {
        if j < count {
            assert(offset + 3 * j + 3 <= data@.len());
        } else {
            assert(offset + 3 * j + 3 > data@.len());
        }
    }
    tab
}

fn style_filler_of(b: u16) -> (r: u16)
    ensures
        r == style_filler(b),
{
    (b >> 11u16) & 0x1Fu16
}

fn style_lyric_of(b: u16) -> (r: u16)
    ensures
        r == style_lyric(b),
{
    (b >> 10u16) & 0x01u16
}

fn style_enclosure_of(b: u16) -> (r: u16)
    ensures
        r == style_enclosure(b),
{
    (b >> 8u16) & 0x03u16
}

fn style_rel_f_size_of(b: u16) -> (r: u16)
    ensures
        r == style_rel_f_size(b),
{
    (b >> 7u16) & 0x01u16
}

fn style_font_size_of(b: u16) -> (r: u16)
    ensures
        r == style_font_size(b),
{
    b & 0x7Fu16
}

fn read_point(data: &[u8], offset: usize) -> (r: Point)
    requires
        offset + 4 <= data@.len(),
    ensures
        r == point_at(data@, offset as int),
{
    let len: usize = data.len();
    Point { v: read_i16_be(data, offset), h: read_i16_be(data, offset + 2) }
}

fn read_rect(data: &[u8], offset: usize) -> (r: Rect)
    requires
        offset + 8 <= data@.len(),
    ensures
        r == rect_at(data@, offset as int),
{
    let len: usize = data.len();
    Rect {
        top: read_i16_be(data, offset),
        left: read_i16_be(data, offset + 2),
        bottom: read_i16_be(data, offset + 4),
        right: read_i16_be(data, offset + 6),
    }
}

impl DocumentHeader {
    /// Read a document header from the start of `data` (see
    /// `document_header_at`); an error when `data` holds fewer than 72 bytes.
    pub fn from_n105_bytes(data: &[u8]) -> (r: Result<Self, HeaderError>)
        ensures
            data@.len() < DOC_HDR_SIZE ==> r == Err::<Self, HeaderError>(HeaderError::TooShort { needed: DOC_HDR_SIZE, got: data@.len() as usize }),
            data@.len() >= DOC_HDR_SIZE ==> r == Ok::<Self, HeaderError>(document_header_at(data@)),
    {
        if data.len() < DOC_HDR_SIZE {
            return Err(HeaderError::TooShort { needed: DOC_HDR_SIZE, got: data.len() });
        }
        Ok(DocumentHeader {
            origin: read_point(data, 0),
            paper_rect: read_rect(data, 4),
            orig_paper_rect: read_rect(data, 12),
            hold_origin: read_point(data, 20),
            margin_rect: read_rect(data, 24),
            sheet_origin: read_point(data, 32),
            current_sheet: read_i16_be(data, 36),
            num_sheets: read_i16_be(data, 38),
            first_sheet: read_i16_be(data, 40),
            first_page_number: read_i16_be(data, 42),
            start_page_number: read_i16_be(data, 44),
            num_rows: read_i16_be(data, 46),
            num_cols: read_i16_be(data, 48),
            page_type: read_i16_be(data, 50),
            meas_system: read_i16_be(data, 52),
            header_footer_margins: read_rect(data, 54),
            current_paper: read_rect(data, 62),
            landscape: data[70] as i8,
            little_endian: data[71],
        })
    }
}

impl ScoreHeader {
    /// Read an N105 score header from the start of `data` (see
    /// `parsed_score_header`); when `data` holds fewer than 2148 bytes, the
    /// error "ScoreHeader requires >=2148 bytes, got N" with N the length.
    #[verifier::rlimit(50)]
    pub fn from_n105_bytes(data: &[u8]) -> (r: Result<Self, String>)
        ensures
            data@.len() < SCORE_HDR_SIZE_N105 <==> r is Err,
            r matches Err(e) ==> e@ == "ScoreHeader requires >=2148 bytes, got "@ + decimal(data@.len()),
            r matches Ok(h) ==> parsed_score_header(data@, h),
    {
        if data.len() < SCORE_HDR_SIZE_N105 {
            let mut msg = "ScoreHeader requires >=2148 bytes, got ".to_owned();
            push_decimal(&mut msg, data.len() as u64);
            return Err(msg);
        }
    let head_l = read_u16_be(data, 0);
    let tail_l = read_u16_be(data, 2);
    let sel_start_l = read_u16_be(data, 4);
    let sel_end_l = read_u16_be(data, 6);
    let nstaves = read_i16_be(data, 8);
    let nsystems = read_i16_be(data, 10);
    let comment = read_bytes256(data, 12);
    let note_ins_feedback = (data[268] >> 7u8) & 1u8;
    let dont_send_patches = (data[268] >> 6u8) & 1u8;
    let saved = (data[268] >> 5u8) & 1u8;
    let named = (data[268] >> 4u8) & 1u8;
    let used = (data[268] >> 3u8) & 1u8;
    let transposed = (data[268] >> 2u8) & 1u8;
    let filler_sc1 = (data[268] >> 1u8) & 1u8;
    let poly_timbral = (data[268] >> 0u8) & 1u8;
    let filler_sc2 = data[269];
    let space_percent = read_i16_be(data, 270);
    let srastral = read_i16_be(data, 272);
    let altsrastral = read_i16_be(data, 274);
    let tempo = read_i16_be(data, 276);
    let channel = read_i16_be(data, 278);
    let vel_offset = read_i16_be(data, 280);
    let header_str_offset = read_i32_be(data, 282);
    let footer_str_offset = read_i32_be(data, 286);
    let top_pgn = (data[290] >> 7u8) & 1u8;
    let h_pos_pgn = (data[290] >> 4u8) & 7u8;
    let alternate_pgn = (data[290] >> 3u8) & 1u8;
    let use_header_footer = (data[290] >> 2u8) & 1u8;
    let filler_pgn = (data[290] >> 0u8) & 3u8;
    let filler_mb = data[291] as i8;
    let filler2 = read_i16_be(data, 292);
    let d_indent_other = read_i16_be(data, 294);
    let first_names = data[296] as i8;
    let other_names = data[297] as i8;
    let last_global_font = data[298] as i8;
    let x_mn_offset = data[299] as i8;
    let y_mn_offset = data[300] as i8;
    let x_sys_mn_offset = data[301] as i8;
    let above_mn = ((read_u16_be(data, 302) >> 15u16) & 1u16) as i16;
    let sys_first_mn = ((read_u16_be(data, 302) >> 14u16) & 1u16) as i16;
    let start_mn_print1 = ((read_u16_be(data, 302) >> 13u16) & 1u16) as i16;
    let first_mn_number = ((read_u16_be(data, 302) >> 0u16) & 8191u16) as i16;
    let master_head_l = read_u16_be(data, 304);
    let master_tail_l = read_u16_be(data, 306);
    let filler1 = data[308] as i8;
    let n_font_records = data[309] as i8;
    let font_name_mn = read_bytes32(data, 310);
    let bits_310 = read_u16_be(data, 342);
    let filler_mn = style_filler_of(bits_310);
    let lyric_mn = style_lyric_of(bits_310);
    let enclosure_mn = style_enclosure_of(bits_310);
    let rel_f_size_mn = style_rel_f_size_of(bits_310);
    let font_size_mn = style_font_size_of(bits_310);
    let font_style_mn = read_i16_be(data, 344);
    let font_name_pn = read_bytes32(data, 346);
    let bits_346 = read_u16_be(data, 378);
    let filler_pn = style_filler_of(bits_346);
    let lyric_pn = style_lyric_of(bits_346);
    let enclosure_pn = style_enclosure_of(bits_346);
    let rel_f_size_pn = style_rel_f_size_of(bits_346);
    let font_size_pn = style_font_size_of(bits_346);
    let font_style_pn = read_i16_be(data, 380);
    let font_name_rm = read_bytes32(data, 382);
    let bits_382 = read_u16_be(data, 414);
    let filler_rm = style_filler_of(bits_382);
    let lyric_rm = style_lyric_of(bits_382);
    let enclosure_rm = style_enclosure_of(bits_382);
    let rel_f_size_rm = style_rel_f_size_of(bits_382);
    let font_size_rm = style_font_size_of(bits_382);
    let font_style_rm = read_i16_be(data, 416);
    let font_name1 = read_bytes32(data, 418);
    let bits_418 = read_u16_be(data, 450);
    let filler_r1 = style_filler_of(bits_418);
    let lyric1 = style_lyric_of(bits_418);
    let enclosure1 = style_enclosure_of(bits_418);
    let rel_f_size1 = style_rel_f_size_of(bits_418);
    let font_size1 = style_font_size_of(bits_418);
    let font_style1 = read_i16_be(data, 452);
    let font_name2 = read_bytes32(data, 454);
    let bits_454 = read_u16_be(data, 486);
    let filler_r2 = style_filler_of(bits_454);
    let lyric2 = style_lyric_of(bits_454);
    let enclosure2 = style_enclosure_of(bits_454);
    let rel_f_size2 = style_rel_f_size_of(bits_454);
    let font_size2 = style_font_size_of(bits_454);
    let font_style2 = read_i16_be(data, 488);
    let font_name3 = read_bytes32(data, 490);
    let bits_490 = read_u16_be(data, 522);
    let filler_r3 = style_filler_of(bits_490);
    let lyric3 = style_lyric_of(bits_490);
    let enclosure3 = style_enclosure_of(bits_490);
    let rel_f_size3 = style_rel_f_size_of(bits_490);
    let font_size3 = style_font_size_of(bits_490);
    let font_style3 = read_i16_be(data, 524);
    let font_name4 = read_bytes32(data, 526);
    let bits_526 = read_u16_be(data, 558);
    let filler_r4 = style_filler_of(bits_526);
    let lyric4 = style_lyric_of(bits_526);
    let enclosure4 = style_enclosure_of(bits_526);
    let rel_f_size4 = style_rel_f_size_of(bits_526);
    let font_size4 = style_font_size_of(bits_526);
    let font_style4 = read_i16_be(data, 560);
    let font_name_tm = read_bytes32(data, 562);
    let bits_562 = read_u16_be(data, 594);
    let filler_tm = style_filler_of(bits_562);
    let lyric_tm = style_lyric_of(bits_562);
    let enclosure_tm = style_enclosure_of(bits_562);
    let rel_f_size_tm = style_rel_f_size_of(bits_562);
    let font_size_tm = style_font_size_of(bits_562);
    let font_style_tm = read_i16_be(data, 596);
    let font_name_cs = read_bytes32(data, 598);
    let bits_598 = read_u16_be(data, 630);
    let filler_cs = style_filler_of(bits_598);
    let lyric_cs = style_lyric_of(bits_598);
    let enclosure_cs = style_enclosure_of(bits_598);
    let rel_f_size_cs = style_rel_f_size_of(bits_598);
    let font_size_cs = style_font_size_of(bits_598);
    let font_style_cs = read_i16_be(data, 632);
    let font_name_pg = read_bytes32(data, 634);
    let bits_634 = read_u16_be(data, 666);
    let filler_pg = style_filler_of(bits_634);
    let lyric_pg = style_lyric_of(bits_634);
    let enclosure_pg = style_enclosure_of(bits_634);
    let rel_f_size_pg = style_rel_f_size_of(bits_634);
    let font_size_pg = style_font_size_of(bits_634);
    let font_style_pg = read_i16_be(data, 668);
    let font_name5 = read_bytes32(data, 670);
    let bits_670 = read_u16_be(data, 702);
    let filler_r5 = style_filler_of(bits_670);
    let lyric5 = style_lyric_of(bits_670);
    let enclosure5 = style_enclosure_of(bits_670);
    let rel_f_size5 = style_rel_f_size_of(bits_670);
    let font_size5 = style_font_size_of(bits_670);
    let font_style5 = read_i16_be(data, 704);
    let font_name6 = read_bytes32(data, 706);
    let bits_706 = read_u16_be(data, 738);
    let filler_r6 = style_filler_of(bits_706);
    let lyric6 = style_lyric_of(bits_706);
    let enclosure6 = style_enclosure_of(bits_706);
    let rel_f_size6 = style_rel_f_size_of(bits_706);
    let font_size6 = style_font_size_of(bits_706);
    let font_style6 = read_i16_be(data, 740);
    let font_name7 = read_bytes32(data, 742);
    let bits_742 = read_u16_be(data, 774);
    let filler_r7 = style_filler_of(bits_742);
    let lyric7 = style_lyric_of(bits_742);
    let enclosure7 = style_enclosure_of(bits_742);
    let rel_f_size7 = style_rel_f_size_of(bits_742);
    let font_size7 = style_font_size_of(bits_742);
    let font_style7 = read_i16_be(data, 776);
    let font_name8 = read_bytes32(data, 778);
    let bits_778 = read_u16_be(data, 810);
    let filler_r8 = style_filler_of(bits_778);
    let lyric8 = style_lyric_of(bits_778);
    let enclosure8 = style_enclosure_of(bits_778);
    let rel_f_size8 = style_rel_f_size_of(bits_778);
    let font_size8 = style_font_size_of(bits_778);
    let font_style8 = read_i16_be(data, 812);
    let font_name9 = read_bytes32(data, 814);
    let bits_814 = read_u16_be(data, 846);
    let filler_r9 = style_filler_of(bits_814);
    let lyric9 = style_lyric_of(bits_814);
    let enclosure9 = style_enclosure_of(bits_814);
    let rel_f_size9 = style_rel_f_size_of(bits_814);
    let font_size9 = style_font_size_of(bits_814);
    let font_style9 = read_i16_be(data, 848);
    let nfonts_used = read_i16_be(data, 850);
    let font_table = read_font_table(data, 852);
    let mus_font_name = read_bytes32(data, 1532);
    let magnify = read_i16_be(data, 1564);
    let sel_staff = read_i16_be(data, 1566);
    let other_mn_staff = data[1568] as i8;
    let number_meas = data[1569] as i8;
    let current_system = read_i16_be(data, 1570);
    let space_table = read_i16_be(data, 1572);
    let htight = read_i16_be(data, 1574);
    let filler_int = read_i16_be(data, 1576);
    let look_voice = read_i16_be(data, 1578);
    let filler_hp = read_i16_be(data, 1580);
    let filler_lp = read_i16_be(data, 1582);
    let ledger_y_sp = read_i16_be(data, 1584);
    let deflam_time = read_i16_be(data, 1586);
    let auto_respace = data[1588];
    let insert_mode = data[1589];
    let beam_rests = data[1590];
    let graph_mode = data[1591];
    let show_syncs = data[1592];
    let frame_systems = data[1593];
    let filler_em = data[1594];
    let color_voices = data[1595];
    let show_invis = data[1596];
    let show_dur_prob = data[1597];
    let record_flats = data[1598];
    let space_map = read_space_map(data, 1599);
    let d_indent_first = read_i16_be(data, 1635);
    let y_between_sys = read_i16_be(data, 1637);
    let voice_tab = read_voice_tab(data, 1639);
    let expansion = read_expansion(data, 1942);
        Ok(ScoreHeader {
        head_l,
        tail_l,
        sel_start_l,
        sel_end_l,
        nstaves,
        nsystems,
        comment,
        note_ins_feedback,
        dont_send_patches,
        saved,
        named,
        used,
        transposed,
        filler_sc1,
        poly_timbral,
        filler_sc2,
        space_percent,
        srastral,
        altsrastral,
        tempo,
        channel,
        vel_offset,
        header_str_offset,
        footer_str_offset,
        top_pgn,
        h_pos_pgn,
        alternate_pgn,
        use_header_footer,
        filler_pgn,
        filler_mb,
        filler2,
        d_indent_other,
        first_names,
        other_names,
        last_global_font,
        x_mn_offset,
        y_mn_offset,
        x_sys_mn_offset,
        above_mn,
        sys_first_mn,
        start_mn_print1,
        first_mn_number,
        master_head_l,
        master_tail_l,
        filler1,
        n_font_records,
        font_name_mn,
        filler_mn,
        lyric_mn,
        enclosure_mn,
        rel_f_size_mn,
        font_size_mn,
        font_style_mn,
        font_name_pn,
        filler_pn,
        lyric_pn,
        enclosure_pn,
        rel_f_size_pn,
        font_size_pn,
        font_style_pn,
        font_name_rm,
        filler_rm,
        lyric_rm,
        enclosure_rm,
        rel_f_size_rm,
        font_size_rm,
        font_style_rm,
        font_name1,
        filler_r1,
        lyric1,
        enclosure1,
        rel_f_size1,
        font_size1,
        font_style1,
        font_name2,
        filler_r2,
        lyric2,
        enclosure2,
        rel_f_size2,
        font_size2,
        font_style2,
        font_name3,
        filler_r3,
        lyric3,
        enclosure3,
        rel_f_size3,
        font_size3,
        font_style3,
        font_name4,
        filler_r4,
        lyric4,
        enclosure4,
        rel_f_size4,
        font_size4,
        font_style4,
        font_name_tm,
        filler_tm,
        lyric_tm,
        enclosure_tm,
        rel_f_size_tm,
        font_size_tm,
        font_style_tm,
        font_name_cs,
        filler_cs,
        lyric_cs,
        enclosure_cs,
        rel_f_size_cs,
        font_size_cs,
        font_style_cs,
        font_name_pg,
        filler_pg,
        lyric_pg,
        enclosure_pg,
        rel_f_size_pg,
        font_size_pg,
        font_style_pg,
        font_name5,
        filler_r5,
        lyric5,
        enclosure5,
        rel_f_size5,
        font_size5,
        font_style5,
        font_name6,
        filler_r6,
        lyric6,
        enclosure6,
        rel_f_size6,
        font_size6,
        font_style6,
        font_name7,
        filler_r7,
        lyric7,
        enclosure7,
        rel_f_size7,
        font_size7,
        font_style7,
        font_name8,
        filler_r8,
        lyric8,
        enclosure8,
        rel_f_size8,
        font_size8,
        font_style8,
        font_name9,
        filler_r9,
        lyric9,
        enclosure9,
        rel_f_size9,
        font_size9,
        font_style9,
        nfonts_used,
        font_table,
        mus_font_name,
        magnify,
        sel_staff,
        other_mn_staff,
        number_meas,
        current_system,
        space_table,
        htight,
        filler_int,
        look_voice,
        filler_hp,
        filler_lp,
        ledger_y_sp,
        deflam_time,
        auto_respace,
        insert_mode,
        beam_rests,
        graph_mode,
        show_syncs,
        frame_systems,
        filler_em,
        color_voices,
        show_invis,
        show_dur_prob,
        record_flats,
        space_map,
        d_indent_first,
        y_between_sys,
        voice_tab,
        expansion,
        })
    }
}

} // verus!
