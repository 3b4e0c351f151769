//! Score layout: the configuration (page geometry, staff size, margins),
//! the first system's preamble and its widths, the measures of the object
//! list, their grouping into systems, and the insertion of new systems and
//! pages into the object list with the geometry fixed up.
use vstd::prelude::*;
use vstd::std_specs::hash::spec_hash_map_iter;
use vstd::std_specs::iter::IteratorSpec;
use std::collections::HashMap;
use crate::basic_types::{DRect, Ddist, KsInfo, Link, Rect, NILINK};
use crate::context::SHOW_ALL_LINES;
use crate::defs::{lemma_trunc_div_bounded, trunc_div};
use crate::duration::{code_to_l_dur, lemma_l_dur_bounded, spec_code_to_l_dur};
use crate::score::{
    AClef, AConnect, AKeySig, ANote, AStaff, Clef, Connect, InterpretedObject, InterpretedScore, KeySig,
    ObjData, ObjectHeader, Page, Staff, SubObjHeader, System,
};

verus! {

broadcast use vstd::std_specs::hash::group_hash_axioms;

/// Page geometry, staff sizing and margins used to lay out a score.
#[derive(Debug, Clone)]
pub struct LayoutConfig {
    /// Page width in points (US Letter = 612).
    pub page_width: i16,
    /// Page height in points (US Letter = 792).
    pub page_height: i16,
    /// Staff height in DDIST (rastral 5 = 384 DDIST = 24pt).
    pub staff_height: Ddist,
    /// System left margin in DDIST.
    pub system_left: Ddist,
    /// System right limit in DDIST.
    pub system_right: Ddist,
    /// System top margin in DDIST.
    pub system_top: Ddist,
    /// System-to-system vertical spacing in DDIST.
    pub inter_system: Ddist,
    /// Staff-to-staff spacing (top-to-top) in DDIST.
    pub inter_staff: Ddist,
    /// Maximum measures per system (0 = auto-fit).
    pub max_measures: usize,
}

impl Default for LayoutConfig {
    /// US Letter, rastral 5 staves (384 DDIST), 1-inch left and top margins,
    /// a 54-point right margin, 2800 DDIST between systems, staves 2.5 staff
    /// heights apart, at most 4 measures per system.
    fn default() -> (r: Self)
        ensures
            r.page_width == 612,
            r.page_height == 792,
            r.staff_height == 384,
            r.system_left == 72 * 16,
            r.system_right == (612 - 54) * 16,
            r.system_top == 72 * 16,
            r.inter_system == 2800,
            r.inter_staff == 384 * 5 / 2,
            r.max_measures == 4,
    {
        let staff_height: Ddist = 384;
        let page_width: i16 = 612;
        let margin_left_pt: i16 = 72;
        let margin_right_pt: i16 = 54;
        let margin_top_pt: i16 = 72;
        LayoutConfig {
            page_width,
            page_height: 792,
            staff_height,
            system_left: margin_left_pt * 16,
            system_right: (page_width - margin_right_pt) * 16,
            system_top: margin_top_pt * 16,
            inter_system: 2800,
            inter_staff: staff_height * 5 / 2,
            max_measures: 4,
        }
    }
}

/// The distance between staff lines: a quarter of the staff height
/// (truncated toward zero).
pub open spec fn spec_d_line_sp(staff_height: Ddist) -> int {
    trunc_div(staff_height as int, 4)
}

/// The height of a system of `ns` staves (`ns` taken as a 16-bit value).
pub open spec fn spec_system_height(c: LayoutConfig, ns: usize) -> int {
    c.staff_height as int + ((ns as i16) as int - 1) * c.inter_staff as int
}

/// The divisor of `systems_per_page`: the inter-system spacing or the system
/// height plus 200, whichever is larger.
pub open spec fn spec_system_pitch(c: LayoutConfig, ns: usize) -> int {
    let h = spec_system_height(c, ns) + 200;
    if c.inter_system as int >= h { c.inter_system as int } else { h }
}

/// The computation of `systems_per_page` fits 16 bits and divides by a
/// nonzero value.
pub open spec fn systems_per_page_fits(c: LayoutConfig, ns: usize) -> bool {
    &&& (ns as i16) as int - 1 >= i16::MIN
    &&& i16::MIN <= ((ns as i16) as int - 1) * c.inter_staff as int <= i16::MAX
    &&& i16::MIN <= spec_system_height(c, ns) <= i16::MAX
    &&& i16::MIN <= spec_system_height(c, ns) + 200 <= i16::MAX
    &&& i16::MIN <= c.page_height as int * 16 <= i16::MAX
    &&& i16::MIN <= c.page_height as int * 16 - c.system_top as int <= i16::MAX
    &&& spec_system_pitch(c, ns) != 0
    &&& !(c.page_height as int * 16 - c.system_top as int == i16::MIN && spec_system_pitch(c, ns) == -1)
}

/// How many systems of `ns` staves fit on a page: the height below the top
/// margin divided by `spec_system_pitch` (truncated), at least 1 (a negative
/// quotient, taken as unsigned, is kept).
pub open spec fn spec_systems_per_page(c: LayoutConfig, ns: usize) -> int {
    let count = trunc_div(c.page_height as int * 16 - c.system_top as int, spec_system_pitch(c, ns));
    let u = (count as i16) as usize;
    if u >= 1 { u as int } else { 1 }
}

/// More staves never fit more systems on a page (with staves spaced
/// downward and room below the top margin).
pub proof fn lemma_systems_per_page_falls(c: LayoutConfig, ns1: usize, ns2: usize)
    requires
        1 <= ns1 <= ns2 <= 0x7FFF,
        systems_per_page_fits(c, ns1),
        systems_per_page_fits(c, ns2),
        c.inter_staff >= 0,
        c.page_height as int * 16 - c.system_top as int >= 0,
        spec_system_pitch(c, ns1) > 0,
    ensures
        spec_systems_per_page(c, ns2) <= spec_systems_per_page(c, ns1),
{
    let usable = c.page_height as int * 16 - c.system_top as int;
    let p1 = spec_system_pitch(c, ns1);
    let p2 = spec_system_pitch(c, ns2);
    assert((ns1 as i16) as int == ns1 as int);
    assert((ns2 as i16) as int == ns2 as int);
    assert((ns1 as int - 1) * c.inter_staff as int <= (ns2 as int - 1) * c.inter_staff as int) by (nonlinear_arith)
        requires ns1 <= ns2, c.inter_staff >= 0;
    assert(p1 <= p2);
    assert(usable / p2 <= usable / p1) by (nonlinear_arith)
        requires 0 < p1 <= p2, usable >= 0;
    assert(0 <= usable / p2) by (nonlinear_arith) requires 0 < p2, usable >= 0;
    assert(usable / p1 <= usable) by (nonlinear_arith) requires 0 < p1, usable >= 0;
    assert(usable <= 0x7FFF);
}

impl LayoutConfig {
    /// Usable music width: `system_right - system_left`.
    pub fn content_width(&self) -> (r: Ddist)
        requires
            i16::MIN <= self.system_right - self.system_left <= i16::MAX,
        ensures
            r == self.system_right - self.system_left,
    {
        self.system_right - self.system_left
    }

    /// Distance between staff lines (see `spec_d_line_sp`).
    pub fn d_line_sp(&self) -> (r: Ddist)
        ensures
            r == spec_d_line_sp(self.staff_height),
    {
        proof { lemma_trunc_div_bounded(self.staff_height as int, 4); }
        self.staff_height / 4
    }

    /// How many systems of `num_staves` staves fit on a page: the height
    /// below the top margin divided by `spec_system_pitch` (truncated), at
    /// least 1 (a negative quotient, taken as unsigned, is kept).
    pub fn systems_per_page(&self, num_staves: usize) -> (r: usize)
        requires
            systems_per_page_fits(*self, num_staves),
        ensures
            r == spec_systems_per_page(*self, num_staves),
    {
        let ns: Ddist = #[verifier::truncate] (num_staves as Ddist);
        let system_height: Ddist = self.staff_height + (ns - 1) * self.inter_staff;
        let usable_height: Ddist = (self.page_height * 16) - self.system_top;
        let h: Ddist = system_height + 200;
        let pitch: Ddist = if self.inter_system >= h { self.inter_system } else { h };
        proof {
            lemma_trunc_div_bounded(usable_height as int, pitch as int);
            if usable_height == i16::MIN {
                assert(pitch != -1);
                if pitch > 0 {
                    assert(usable_height / pitch >= i16::MIN) by (nonlinear_arith)
                        requires usable_height == i16::MIN, pitch > 0;
                } else {
                    assert(-(usable_height as int) / (pitch as int) <= -(usable_height as int) / 2) by (nonlinear_arith)
                        requires usable_height == i16::MIN, pitch <= -2;
                }
            }
        }
        let count: Ddist = usable_height / pitch;
        let u: usize = #[verifier::truncate] (count as usize);
        if u >= 1 { u } else { 1 }
    }

    /// Standard staff metrics: (ledger width, note head width, fractional
    /// beam width, flag leading) = (line spacing, line spacing, half the line
    /// spacing, 0).
    pub fn staff_metrics(&self) -> (r: (Ddist, Ddist, Ddist, Ddist))
        ensures
            r.0 == spec_d_line_sp(self.staff_height),
            r.1 == spec_d_line_sp(self.staff_height),
            r.2 == trunc_div(spec_d_line_sp(self.staff_height), 2),
            r.3 == 0,
    {
        let ls = self.d_line_sp();
        proof { lemma_trunc_div_bounded(ls as int, 2); }
        (ls, ls, ls / 2, 0)
    }
}

/// Metadata of the first system's preamble.
#[derive(Debug, Clone)]
pub struct PreambleInfo {
    /// Number of staves.
    pub num_staves: usize,
    /// Clef type of each staff.
    pub clef_types: Vec<i8>,
    /// Key signature.
    pub ks_info: KsInfo,
    /// Time signature numerator.
    pub time_num: i8,
    /// Time signature denominator.
    pub time_denom: i8,
    /// The system has a Connect object.
    pub has_connect: bool,
    /// Type of the first connect subobject.
    pub connect_type: u8,
    /// Top staff of the connect.
    pub staff_above: i8,
    /// Bottom staff of the connect.
    pub staff_below: i8,
    /// Link of the first System object.
    pub system_link: Link,
    /// Link of the first Page object.
    pub page_link: Link,
    /// Link of the Tail object.
    pub tail_link: Link,
}

/// Width of a key signature of `n_ks` accidentals: nine STDIST units per
/// accidental converted to DDIST for a five-line staff (staff height / 32
/// per unit, truncated), plus one line spacing; 0 with no accidentals.
pub open spec fn spec_ks_width(n_ks: int, staff_height: Ddist) -> int {
    if n_ks > 0 {
        trunc_div(9 * n_ks * staff_height as int, 32) + spec_d_line_sp(staff_height)
    } else {
        0
    }
}

/// The key signature width and its sum with the line spacing fit 16 bits.
pub open spec fn ks_width_fits(n_ks: int, staff_height: Ddist) -> bool {
    n_ks > 0 ==> {
        &&& i16::MIN <= trunc_div(9 * n_ks * staff_height as int, 32) <= i16::MAX
        &&& i16::MIN <= spec_ks_width(n_ks, staff_height) <= i16::MAX
    }
}

/// Key signature width (see `spec_ks_width`).
fn ks_width(n_ks: i8, staff_height: Ddist, dls: Ddist) -> (r: Ddist)
    requires
        dls == spec_d_line_sp(staff_height),
        ks_width_fits(n_ks as int, staff_height),
    ensures
        r == spec_ks_width(n_ks as int, staff_height),
{
    if n_ks > 0 {
        let prod: i32 = 9 * (n_ks as i32) * (staff_height as i32);
        proof { lemma_trunc_div_bounded(prod as int, 32); }
        let w: i32 = prod / 32;
        (w as i16) + dls
    } else {
        0
    }
}

/// Preamble width of the first system: the clef at one line spacing, the
/// key signature 3.5 line spacings further, then the key signature's width,
/// then three line spacings for the time signature.
pub open spec fn spec_preamble_width(n_ks: int, staff_height: Ddist) -> int {
    let dls = spec_d_line_sp(staff_height);
    dls + trunc_div(7 * dls, 2) + spec_ks_width(n_ks, staff_height) + 3 * dls
}

/// Preamble width of a continuation system: the clef at one line spacing,
/// 2.5 line spacings, then the key signature's width.
pub open spec fn spec_continuation_preamble_width(n_ks: int, staff_height: Ddist) -> int {
    let dls = spec_d_line_sp(staff_height);
    dls + trunc_div(5 * dls, 2) + spec_ks_width(n_ks, staff_height)
}

/// Width of the first system's preamble (see `spec_preamble_width`).
pub fn compute_preamble_width_info(preamble: &PreambleInfo, config: &LayoutConfig) -> (r: Ddist)
    requires
        ks_width_fits(preamble.ks_info.n_ks_items as int, config.staff_height),
        i16::MIN <= spec_preamble_width(preamble.ks_info.n_ks_items as int, config.staff_height) <= i16::MAX,
        i16::MIN <= spec_d_line_sp(config.staff_height) + trunc_div(7 * spec_d_line_sp(config.staff_height), 2)
            + spec_ks_width(preamble.ks_info.n_ks_items as int, config.staff_height) <= i16::MAX,
        i16::MIN <= spec_d_line_sp(config.staff_height) + trunc_div(7 * spec_d_line_sp(config.staff_height), 2) <= i16::MAX,
        i16::MIN <= 7 * spec_d_line_sp(config.staff_height) <= i16::MAX,
        i16::MIN <= 3 * spec_d_line_sp(config.staff_height) <= i16::MAX,
    ensures
        r == spec_preamble_width(preamble.ks_info.n_ks_items as int, config.staff_height),
{
    let dls = config.d_line_sp();
    let clef_xd = dls;
    let ksw = ks_width(preamble.ks_info.n_ks_items, config.staff_height, dls);
    proof { lemma_trunc_div_bounded(7 * dls as int, 2); }
    let keysig_xd: Ddist = clef_xd + (7 * dls) / 2;
    let timesig_xd: Ddist = keysig_xd + ksw;
    timesig_xd + 3 * dls
}

/// Width of a continuation system's preamble (see
/// `spec_continuation_preamble_width`).
pub fn compute_continuation_preamble_info(preamble: &PreambleInfo, config: &LayoutConfig) -> (r: Ddist)
    requires
        ks_width_fits(preamble.ks_info.n_ks_items as int, config.staff_height),
        i16::MIN <= spec_continuation_preamble_width(preamble.ks_info.n_ks_items as int, config.staff_height) <= i16::MAX,
        i16::MIN <= spec_d_line_sp(config.staff_height) + trunc_div(5 * spec_d_line_sp(config.staff_height), 2) <= i16::MAX,
        i16::MIN <= 5 * spec_d_line_sp(config.staff_height) <= i16::MAX,
    ensures
        r == spec_continuation_preamble_width(preamble.ks_info.n_ks_items as int, config.staff_height),
{
    let dls = config.d_line_sp();
    let clef_xd = dls;
    let ksw = ks_width(preamble.ks_info.n_ks_items, config.staff_height, dls);
    proof { lemma_trunc_div_bounded(5 * dls as int, 2); }
    clef_xd + (5 * dls) / 2 + ksw
}

// ----------------------------------------------------------------------------
// New pages and systems
// ----------------------------------------------------------------------------

/// A header with every field zero or false.
pub open spec fn blank_header() -> ObjectHeader {
    ObjectHeader {
        right: 0,
        left: 0,
        first_sub_obj: 0,
        xd: 0,
        yd: 0,
        obj_type: 0,
        selected: false,
        visible: false,
        soft: false,
        valid: false,
        tweaked: false,
        spare_flag: false,
        ohdr_filler1: 0,
        obj_rect: Rect { top: 0, left: 0, bottom: 0, right: 0 },
        rel_size: 0,
        ohdr_filler2: 0,
        n_entries: 0,
    }
}

fn new_blank_header() -> (r: ObjectHeader)
    ensures
        r == blank_header(),
{
    ObjectHeader {
        right: 0,
        left: 0,
        first_sub_obj: 0,
        xd: 0,
        yd: 0,
        obj_type: 0,
        selected: false,
        visible: false,
        soft: false,
        valid: false,
        tweaked: false,
        spare_flag: false,
        ohdr_filler1: 0,
        obj_rect: Rect { top: 0, left: 0, bottom: 0, right: 0 },
        rel_size: 0,
        ohdr_filler2: 0,
        n_entries: 0,
    }
}

/// A visible, valid header of an object of type `obj_type` with the given
/// links, subobject list, entry count and position; other fields blank.
pub open spec fn new_header(obj_type: i8, left: Link, right: Link, first_sub_obj: Link, n_entries: u8, xd: Ddist) -> ObjectHeader {
    ObjectHeader {
        obj_type,
        left,
        right,
        first_sub_obj,
        n_entries,
        xd,
        visible: true,
        valid: true,
        ..blank_header()
    }
}

/// The score's tables and settings other than its objects are the same.
pub open spec fn same_except_objects(a: InterpretedScore, b: InterpretedScore) -> bool {
    &&& a.head_l == b.head_l
    &&& a.staffs@ == b.staffs@
    &&& a.measures@ == b.measures@
    &&& a.clefs@ == b.clefs@
    &&& a.keysigs@ == b.keysigs@
    &&& a.timesigs@ == b.timesigs@
    &&& a.dynamics@ == b.dynamics@
    &&& a.notes@ == b.notes@
    &&& a.connects@ == b.connects@
    &&& a.notebeams@ == b.notebeams@
    &&& a.slurs@ == b.slurs@
    &&& a.part_infos@ == b.part_infos@
    &&& a.number_meas == b.number_meas
    &&& a.first_mn_number == b.first_mn_number
    &&& a.above_mn == b.above_mn
    &&& a.start_mn_print1 == b.start_mn_print1
}

/// The Page object appended for page `page_idx` after `prev_link`; its left
/// page is the first page.
pub open spec fn new_page_object(link: Link, page_idx: usize, prev_link: Link, first_page_link: Link) -> InterpretedObject {
    InterpretedObject {
        index: link,
        header: new_header(4, prev_link, 0, 0, 0, 0),
        data: ObjData::Page(Page {
            header: blank_header(),
            l_page: first_page_link,
            r_page: NILINK,
            sheet_num: page_idx as i16,
            header_str_offset: 0,
            footer_str_offset: 0,
        }),
    }
}

/// Objects after appending a page: the new page, and the first page's right
/// page set to it when the first page had none.
pub open spec fn objects_with_page(
    objs: Seq<InterpretedObject>,
    page_idx: usize,
    prev_link: Link,
    first_page_link: Link,
) -> Seq<InterpretedObject> {
    let link = objs.len() as Link;
    let s1 = objs.push(new_page_object(link, page_idx, prev_link, first_page_link));
    let f = s1[first_page_link as int];
    match f.data {
        ObjData::Page(p) => if p.r_page == NILINK {
            s1.update(first_page_link as int, InterpretedObject { data: ObjData::Page(Page { r_page: link, ..p }), ..f })
        } else {
            s1
        },
        _ => s1,
    }
}

/// Append a Page object for page `page_idx` (see `objects_with_page`) and
/// return its link.
pub fn append_page_object(score: &mut InterpretedScore, page_idx: usize, prev_link: Link, first_page_link: Link) -> (r: Link)
    requires
        old(score).objects@.len() < 0xFFFF,
        (first_page_link as int) <= old(score).objects@.len(),
    ensures
        r == old(score).objects@.len() as Link,
        final(score).objects@ == objects_with_page(old(score).objects@, page_idx, prev_link, first_page_link),
        same_except_objects(*final(score), *old(score)),
{
    let page_link: Link = score.objects.len() as Link;
    let mut header = new_blank_header();
    header.obj_type = 4;
    header.left = prev_link;
    header.visible = true;
    header.valid = true;
    score.objects.push(InterpretedObject {
        index: page_link,
        header,
        data: ObjData::Page(Page {
            header: new_blank_header(),
            l_page: first_page_link,
            r_page: NILINK,
            sheet_num: #[verifier::truncate] (page_idx as i16),
            header_str_offset: 0,
            footer_str_offset: 0,
        }),
    });
    let first = score.objects[first_page_link as usize];
    match first.data {
        ObjData::Page(p) => {
            if p.r_page == NILINK {
                let mut np = p;
                np.r_page = page_link;
                let mut nf = first;
                nf.data = ObjData::Page(np);
                score.objects.set(first_page_link as usize, nf);
            }
        },
        _ => {},
    }
    page_link
}

/// The staff subobjects of a new system: staff `s + 1` at `s` inter-staff
/// spacings, spanning the content width, with the standard metrics and the
/// preamble's clef (1 when it has none for the staff), key and time
/// signatures; each links to the next.
pub open spec fn new_staff_list(c: LayoutConfig, p: PreambleInfo, sub: Link) -> Seq<AStaff> {
    let ns = p.num_staves as int;
    let dls = spec_d_line_sp(c.staff_height);
    Seq::new(p.num_staves as nat, |s: int| AStaff {
        next: if s + 1 < ns { (sub + s + 1) as Link } else { NILINK },
        staffn: (s + 1) as i8,
        selected: false,
        visible: true,
        filler_stf: false,
        staff_top: ((s as i16) as int * c.inter_staff as int) as i16,
        staff_left: 0,
        staff_right: (c.system_right - c.system_left) as i16,
        staff_height: c.staff_height,
        staff_lines: 5,
        show_lines: SHOW_ALL_LINES,
        show_ledgers: 1,
        font_size: 24,
        flag_leading: 0,
        min_stem_free: 0,
        ledger_width: dls as i16,
        note_head_width: dls as i16,
        frac_beam_width: trunc_div(dls, 2) as i16,
        space_below: (c.inter_staff - c.staff_height) as i16,
        filler: 0,
        clef_type: if s < p.clef_types@.len() { p.clef_types@[s] } else { 1 },
        dynamic_type: 0,
        ks_info: p.ks_info,
        time_sig_type: 1,
        numerator: p.time_num,
        denominator: p.time_denom,
    })
}

/// The clef subobjects of a new system: the preamble's clefs (1 when it has
/// none for the staff), one per staff, each linking to the next.
pub open spec fn new_clef_list(p: PreambleInfo, sub: Link) -> Seq<AClef> {
    let ns = p.num_staves as int;
    Seq::new(p.num_staves as nat, |s: int| AClef {
        header: SubObjHeader {
            next: if s + 1 < ns { (sub + s + 1) as Link } else { NILINK },
            staffn: (s + 1) as i8,
            sub_type: if s < p.clef_types@.len() { p.clef_types@[s] } else { 1 },
            selected: false,
            visible: true,
            soft: false,
        },
        filler1: 0,
        small: 0,
        filler2: 0,
        xd: 0,
        yd: 0,
    })
}

/// The key signature subobjects of a new system: the preamble's key
/// signature on every staff, each linking to the next.
pub open spec fn new_keysig_list(p: PreambleInfo, sub: Link) -> Seq<AKeySig> {
    let ns = p.num_staves as int;
    Seq::new(p.num_staves as nat, |s: int| AKeySig {
        header: SubObjHeader {
            next: if s + 1 < ns { (sub + s + 1) as Link } else { NILINK },
            staffn: (s + 1) as i8,
            sub_type: 0,
            selected: false,
            visible: true,
            soft: false,
        },
        nonstandard: 0,
        filler1: 0,
        small: 0,
        filler2: 0,
        xd: 0,
        ks_info: p.ks_info,
    })
}

/// The connect subobject of a new system: the preamble's connect type and
/// staff range.
pub open spec fn new_connect(p: PreambleInfo) -> AConnect {
    AConnect {
        next: NILINK,
        selected: false,
        filler: 0,
        conn_level: 0,
        connect_type: p.connect_type,
        staff_above: p.staff_above,
        staff_below: p.staff_below,
        xd: 0,
        first_part: 1,
        last_part: 1,
    }
}

/// The top of system `sys_in_page` of a page (widened, then clamped to 16 bits).
pub open spec fn new_system_top(c: LayoutConfig, sys_in_page: usize) -> int {
    c.system_top as int + (sys_in_page as i32) as int * c.inter_system as int
}

/// `v` clamped to the 16-bit range.
pub open spec fn clamp_i16(v: int) -> i16 {
    if v < i16::MIN { i16::MIN } else if v > i16::MAX { i16::MAX } else { v as i16 }
}

/// The objects of a new system appended at the end of `objs`: a System, a
/// Staff, a Connect when the preamble has one, a Clef and a KeySig, each
/// linked to the next, with subobject lists starting at `sub`.
pub open spec fn new_system_objects(
    objs: Seq<InterpretedObject>,
    c: LayoutConfig,
    p: PreambleInfo,
    sub: Link,
    sys_idx: usize,
    sys_in_page: usize,
    page_link: Link,
) -> Seq<InterpretedObject> {
    let l0 = objs.len() as int;
    let ns = p.num_staves;
    let dls = spec_d_line_sp(c.staff_height);
    let sys_link = l0 as Link;
    let staff_link = (l0 + 1) as Link;
    let conn_link = (l0 + 2) as Link;
    let clef_link = (if p.has_connect { l0 + 3 } else { l0 + 2 }) as Link;
    let ks_link = (clef_link as int + 1) as Link;
    let top = new_system_top(c, sys_in_page);
    let height = spec_system_height(c, ns);
    let system = InterpretedObject {
        index: sys_link,
        header: new_header(5, 0, staff_link, 0, 0, 0),
        data: ObjData::System(System {
            header: blank_header(),
            l_system: NILINK,
            r_system: NILINK,
            page_l: page_link,
            system_num: (sys_idx + 1) as i16,
            system_rect: DRect {
                top: clamp_i16(top),
                left: c.system_left,
                bottom: clamp_i16(top + height),
                right: c.system_right,
            },
            sys_desc_ptr: 0,
        }),
    };
    let staff = InterpretedObject {
        index: staff_link,
        header: new_header(6, sys_link, if p.has_connect { conn_link } else { clef_link }, sub, ns as u8, 0),
        data: ObjData::Staff(Staff { header: blank_header(), l_staff: NILINK, r_staff: NILINK, system_l: sys_link }),
    };
    let connect = InterpretedObject {
        index: conn_link,
        header: new_header(12, staff_link, clef_link, (sub + ns) as Link, 1, 0),
        data: ObjData::Connect(Connect { header: blank_header(), conn_filler: NILINK }),
    };
    let clef_sub = (if p.has_connect { sub + ns + 1 } else { sub + ns }) as Link;
    let clef = InterpretedObject {
        index: clef_link,
        header: new_header(8, if p.has_connect { conn_link } else { staff_link }, ks_link, clef_sub, ns as u8, dls as i16),
        data: ObjData::Clef(Clef { header: blank_header(), in_measure: false }),
    };
    let keysig = InterpretedObject {
        index: ks_link,
        header: new_header(9, clef_link, 0, (clef_sub + ns) as Link, ns as u8, (dls + trunc_div(5 * dls, 2)) as i16),
        data: ObjData::KeySig(KeySig { header: blank_header(), in_measure: false }),
    };
    if p.has_connect {
        objs + seq![system, staff, connect, clef, keysig]
    } else {
        objs + seq![system, staff, clef, keysig]
    }
}

/// The arithmetic of a new system fits: links and subobject keys fit 16
/// bits, and the geometry fits the widths it is computed in.
pub open spec fn new_system_fits(objs_len: int, c: LayoutConfig, p: PreambleInfo, sub: Link, sys_in_page: usize) -> bool {
    let ns = p.num_staves as int;
    let dls = spec_d_line_sp(c.staff_height);
    &&& objs_len + 5 < 0x10000
    &&& sub + 3 * ns + 1 < 0x10000
    &&& i16::MIN <= c.system_right - c.system_left <= i16::MAX
    &&& i16::MIN <= c.inter_staff - c.staff_height <= i16::MAX
    &&& i16::MIN <= 5 * dls <= i16::MAX
    &&& i16::MIN <= dls + trunc_div(5 * dls, 2) <= i16::MAX
    &&& (ns as i16) as int - 1 >= i16::MIN
    &&& i16::MIN <= ((ns as i16) as int - 1) * c.inter_staff as int <= i16::MAX
    &&& i16::MIN <= spec_system_height(c, p.num_staves) <= i16::MAX
    &&& i32::MIN <= (sys_in_page as i32) as int * c.inter_system as int <= i32::MAX
    &&& i32::MIN <= new_system_top(c, sys_in_page) <= i32::MAX
    &&& i32::MIN <= new_system_top(c, sys_in_page) + spec_system_height(c, p.num_staves) <= i32::MAX
    &&& forall|s: int| 0 <= s < ns ==> i16::MIN <= #[trigger] ((s as i16) as int * c.inter_staff as int) <= i16::MAX
}

/// `m2` is `m1` with key `k` mapped to a vector whose view is `v`.
pub open spec fn map_inserted<T>(m2: Map<Link, Vec<T>>, m1: Map<Link, Vec<T>>, k: Link, v: Seq<T>) -> bool {
    &&& m2.dom() == m1.dom().insert(k)
    &&& m2[k]@ == v
    &&& forall|j: Link| j != k && #[trigger] m1.contains_key(j) ==> m2[j] == m1[j]
}

/// The links of a subobject list starting at `sub`: entry `s` links to
/// `sub + s + 1`, the last to `NILINK`.
fn next_sub_link(sub: Link, s: usize, ns: usize) -> (r: Link)
    requires
        s < ns,
        sub + ns < 0x10000,
    ensures
        r == if s + 1 < ns { (sub + s + 1) as Link } else { NILINK },
{
    if s + 1 < ns {
        sub + (s + 1) as Link
    } else {
        NILINK
    }
}

fn preamble_clef(p: &PreambleInfo, s: usize) -> (r: i8)
    ensures
        r == if s < p.clef_types@.len() { p.clef_types@[s as int] } else { 1 },
{
    if s < p.clef_types.len() {
        p.clef_types[s]
    } else {
        1
    }
}

/// Append the objects of a new system (see `new_system_objects`), insert
/// their subobject lists (staves, connect, clefs, key signatures) at the
/// keys from `*next_sub` on, advance `*next_sub` past them, and return the
/// links of the System and of the KeySig.
pub fn append_system_preamble(
    score: &mut InterpretedScore,
    config: &LayoutConfig,
    preamble: &PreambleInfo,
    next_sub: &mut Link,
    sys_idx: usize,
    sys_in_page: usize,
    page_link: Link,
) -> (r: (Link, Link))
    requires
        new_system_fits(old(score).objects@.len() as int, *config, *preamble, *old(next_sub), sys_in_page),
        sys_idx < usize::MAX,
    ensures
        ({
            let l0 = old(score).objects@.len() as int;
            let ns = preamble.num_staves as int;
            let sub = *old(next_sub) as int;
            let clef_sub = if preamble.has_connect { sub + ns + 1 } else { sub + ns };
            &&& r.0 == l0 as Link
            &&& r.1 == (if preamble.has_connect { l0 + 4 } else { l0 + 3 }) as Link
            &&& *final(next_sub) == clef_sub + 2 * ns
            &&& final(score).objects@ == new_system_objects(old(score).objects@, *config, *preamble, *old(next_sub), sys_idx, sys_in_page, page_link)
            &&& map_inserted(final(score).staffs@, old(score).staffs@, sub as Link, new_staff_list(*config, *preamble, sub as Link))
            &&& map_inserted(final(score).clefs@, old(score).clefs@, clef_sub as Link, new_clef_list(*preamble, clef_sub as Link))
            &&& map_inserted(final(score).keysigs@, old(score).keysigs@, (clef_sub + ns) as Link, new_keysig_list(*preamble, (clef_sub + ns) as Link))
            &&& preamble.has_connect ==> map_inserted(final(score).connects@, old(score).connects@, (sub + ns) as Link, seq![new_connect(*preamble)])
            &&& !preamble.has_connect ==> final(score).connects@ == old(score).connects@
            &&& final(score).head_l == old(score).head_l
            &&& final(score).measures@ == old(score).measures@
            &&& final(score).timesigs@ == old(score).timesigs@
            &&& final(score).dynamics@ == old(score).dynamics@
            &&& final(score).notes@ == old(score).notes@
            &&& final(score).notebeams@ == old(score).notebeams@
            &&& final(score).slurs@ == old(score).slurs@
            &&& final(score).part_infos@ == old(score).part_infos@
            &&& final(score).number_meas == old(score).number_meas
            &&& final(score).first_mn_number == old(score).first_mn_number
            &&& final(score).above_mn == old(score).above_mn
            &&& final(score).start_mn_print1 == old(score).start_mn_print1
        }),
{
    let ghost objs0 = score.objects@;
    let ghost sub0 = *next_sub;
    let ns: usize = preamble.num_staves;
    let dls = config.d_line_sp();
    let (ledger_w, notehead_w, frac_beam_w, flag_lead) = config.staff_metrics();
    let content_width: Ddist = config.system_right - config.system_left;
    let ns16: Ddist = #[verifier::truncate] (ns as Ddist);
    let system_height: Ddist = config.staff_height + (ns16 - 1) * config.inter_staff;
    let page_row: i32 = #[verifier::truncate] (sys_in_page as i32);
    let sys_top_i32: i32 = config.system_top as i32 + page_row * config.inter_system as i32;
    let sys_top: Ddist = if sys_top_i32 < -32768 { -32768 } else if sys_top_i32 > 32767 { 32767 } else { sys_top_i32 as Ddist };
    let bottom_i32: i32 = sys_top_i32 + system_height as i32;
    let sys_bottom: Ddist = if bottom_i32 < -32768 { -32768 } else if bottom_i32 > 32767 { 32767 } else { bottom_i32 as Ddist };

    // System
    let system_link: Link = score.objects.len() as Link;
    let mut sys_header = new_blank_header();
    sys_header.obj_type = 5;
    sys_header.visible = true;
    sys_header.valid = true;
    score.objects.push(InterpretedObject {
        index: system_link,
        header: sys_header,
        data: ObjData::System(System {
            header: new_blank_header(),
            l_system: NILINK,
            r_system: NILINK,
            page_l: page_link,
            system_num: #[verifier::truncate] ((sys_idx + 1) as i16),
            system_rect: DRect { top: sys_top, left: config.system_left, bottom: sys_bottom, right: config.system_right },
            sys_desc_ptr: 0,
        }),
    });

    // Staff
    let staff_sub: Link = *next_sub;
    *next_sub = *next_sub + ns as Link;
    let mut staff_subs: Vec<AStaff> = Vec::new();
    let mut s: usize = 0;
    while s < ns
        invariant
            s <= ns,
            ns == preamble.num_staves,
            staff_sub == sub0,
            new_system_fits(objs0.len() as int, *config, *preamble, sub0, sys_in_page),
            dls == spec_d_line_sp(config.staff_height),
            ledger_w == dls,
            notehead_w == dls,
            frac_beam_w == trunc_div(dls as int, 2),
            flag_lead == 0,
            content_width == config.system_right - config.system_left,
            staff_subs@ =~= new_staff_list(*config, *preamble, staff_sub).take(s as int),
        decreases ns - s,
    {
        let s16: Ddist = #[verifier::truncate] (s as Ddist);
        assert(i16::MIN <= (s16 as int) * config.inter_staff as int <= i16::MAX);
        staff_subs.push(AStaff {
            next: next_sub_link(staff_sub, s, ns),
            staffn: #[verifier::truncate] ((s + 1) as i8),
            selected: false,
            visible: true,
            filler_stf: false,
            staff_top: s16 * config.inter_staff,
            staff_left: 0,
            staff_right: content_width,
            staff_height: config.staff_height,
            staff_lines: 5,
            show_lines: SHOW_ALL_LINES,
            show_ledgers: 1,
            font_size: 24,
            flag_leading: flag_lead,
            min_stem_free: 0,
            ledger_width: ledger_w,
            note_head_width: notehead_w,
            frac_beam_width: frac_beam_w,
            space_below: config.inter_staff - config.staff_height,
            filler: 0,
            clef_type: preamble_clef(preamble, s),
            dynamic_type: 0,
            ks_info: preamble.ks_info,
            time_sig_type: 1,
            numerator: preamble.time_num,
            denominator: preamble.time_denom,
        });
        s = s + 1;
    }
    let staff_link: Link = score.objects.len() as Link;
    let mut staff_header = new_blank_header();
    staff_header.obj_type = 6;
    staff_header.left = system_link;
    staff_header.first_sub_obj = staff_sub;
    staff_header.n_entries = #[verifier::truncate] (ns as u8);
    staff_header.visible = true;
    staff_header.valid = true;
    score.objects.push(InterpretedObject {
        index: staff_link,
        header: staff_header,
        data: ObjData::Staff(Staff { header: new_blank_header(), l_staff: NILINK, r_staff: NILINK, system_l: system_link }),
    });
    score.staffs.insert(staff_sub, staff_subs);
    let mut sys_obj = score.objects[system_link as usize];
    sys_obj.header.right = staff_link;
    score.objects.set(system_link as usize, sys_obj);
    let mut prev_link: Link = staff_link;

    // Connect
    if preamble.has_connect {
        let conn_sub: Link = *next_sub;
        *next_sub = *next_sub + 1;
        let connect_link: Link = score.objects.len() as Link;
        let mut conn_header = new_blank_header();
        conn_header.obj_type = 12;
        conn_header.left = prev_link;
        conn_header.first_sub_obj = conn_sub;
        conn_header.n_entries = 1;
        conn_header.visible = true;
        conn_header.valid = true;
        score.objects.push(InterpretedObject {
            index: connect_link,
            header: conn_header,
            data: ObjData::Connect(Connect { header: new_blank_header(), conn_filler: NILINK }),
        });
        let mut conns: Vec<AConnect> = Vec::new();
        conns.push(AConnect {
            next: NILINK,
            selected: false,
            filler: 0,
            conn_level: 0,
            connect_type: preamble.connect_type,
            staff_above: preamble.staff_above,
            staff_below: preamble.staff_below,
            xd: 0,
            first_part: 1,
            last_part: 1,
        });
        score.connects.insert(conn_sub, conns);
        let mut prev_obj = score.objects[prev_link as usize];
        prev_obj.header.right = connect_link;
        score.objects.set(prev_link as usize, prev_obj);
        prev_link = connect_link;
    }

    // Clef
    let clef_sub: Link = *next_sub;
    *next_sub = *next_sub + ns as Link;
    let clef_xd: Ddist = dls;
    let mut clef_subs: Vec<AClef> = Vec::new();
    let mut s: usize = 0;
    while s < ns
        invariant
            s <= ns,
            ns == preamble.num_staves,
            clef_sub as int + ns < 0x10000,
            clef_subs@ =~= new_clef_list(*preamble, clef_sub).take(s as int),
        decreases ns - s,
    {
        clef_subs.push(AClef {
            header: SubObjHeader {
                next: next_sub_link(clef_sub, s, ns),
                staffn: #[verifier::truncate] ((s + 1) as i8),
                sub_type: preamble_clef(preamble, s),
                selected: false,
                visible: true,
                soft: false,
            },
            filler1: 0,
            small: 0,
            filler2: 0,
            xd: 0,
            yd: 0,
        });
        s = s + 1;
    }
    let clef_link: Link = score.objects.len() as Link;
    let mut clef_header = new_blank_header();
    clef_header.obj_type = 8;
    clef_header.left = prev_link;
    clef_header.first_sub_obj = clef_sub;
    clef_header.n_entries = #[verifier::truncate] (ns as u8);
    clef_header.xd = clef_xd;
    clef_header.visible = true;
    clef_header.valid = true;
    score.objects.push(InterpretedObject {
        index: clef_link,
        header: clef_header,
        data: ObjData::Clef(Clef { header: new_blank_header(), in_measure: false }),
    });
    score.clefs.insert(clef_sub, clef_subs);
    let mut prev_obj = score.objects[prev_link as usize];
    prev_obj.header.right = clef_link;
    score.objects.set(prev_link as usize, prev_obj);
    prev_link = clef_link;

    // KeySig
    let ks_sub: Link = *next_sub;
    *next_sub = *next_sub + ns as Link;
    proof { lemma_trunc_div_bounded(5 * dls as int, 2); }
    let keysig_xd: Ddist = clef_xd + (5 * dls) / 2;
    let mut ks_subs: Vec<AKeySig> = Vec::new();
    let mut s: usize = 0;
    while s < ns
        invariant
            s <= ns,
            ns == preamble.num_staves,
            ks_sub as int + ns < 0x10000,
            ks_subs@ =~= new_keysig_list(*preamble, ks_sub).take(s as int),
        decreases ns - s,
    {
        ks_subs.push(AKeySig {
            header: SubObjHeader {
                next: next_sub_link(ks_sub, s, ns),
                staffn: #[verifier::truncate] ((s + 1) as i8),
                sub_type: 0,
                selected: false,
                visible: true,
                soft: false,
            },
            nonstandard: 0,
            filler1: 0,
            small: 0,
            filler2: 0,
            xd: 0,
            ks_info: preamble.ks_info,
        });
        s = s + 1;
    }
    let ks_link: Link = score.objects.len() as Link;
    let mut ks_header = new_blank_header();
    ks_header.obj_type = 9;
    ks_header.left = prev_link;
    ks_header.first_sub_obj = ks_sub;
    ks_header.n_entries = #[verifier::truncate] (ns as u8);
    ks_header.xd = keysig_xd;
    ks_header.visible = true;
    ks_header.valid = true;
    score.objects.push(InterpretedObject {
        index: ks_link,
        header: ks_header,
        data: ObjData::KeySig(KeySig { header: new_blank_header(), in_measure: false }),
    });
    score.keysigs.insert(ks_sub, ks_subs);
    let mut prev_obj = score.objects[prev_link as usize];
    prev_obj.header.right = ks_link;
    score.objects.set(prev_link as usize, prev_obj);
    proof {
        assert(new_staff_list(*config, *preamble, staff_sub).take(ns as int) =~= new_staff_list(*config, *preamble, staff_sub));
        assert(new_clef_list(*preamble, clef_sub).take(ns as int) =~= new_clef_list(*preamble, clef_sub));
        assert(new_keysig_list(*preamble, ks_sub).take(ns as int) =~= new_keysig_list(*preamble, ks_sub));
        assert(score.objects@ =~= new_system_objects(objs0, *config, *preamble, sub0, sys_idx, sys_in_page, page_link));
    }
    (system_link, ks_link)
}


/// Every key of `m` plus the length of its list is at most `r`.
pub open spec fn sub_ends_within<T>(m: Map<Link, Vec<T>>, r: int) -> bool {
    forall|k: Link| #[trigger] m.contains_key(k) ==> k + m[k]@.len() <= r
}

/// Some key of `m` plus the length of its list is `r`.
pub open spec fn sub_end_attained<T>(m: Map<Link, Vec<T>>, r: int) -> bool {
    exists|k: Link| #[trigger] m.contains_key(k) && k + m[k]@.len() == r
}

/// The largest of `acc` and every key of `m` plus the length of its list.
fn max_sub_end<T>(m: &HashMap<Link, Vec<T>>, acc: Link) -> (r: Link)
    requires
        sub_ends_within(m@, u16::MAX as int),
    ensures
        acc <= r,
        sub_ends_within(m@, r as int),
        r == acc || sub_end_attained(m@, r as int),
{
    let mut r: Link = acc;
    for kv in it: m.iter()
        invariant
            acc <= r,
            r == acc || sub_end_attained(m@, r as int),
            sub_ends_within(m@, u16::MAX as int),
            it.seq() == spec_hash_map_iter(m).remaining(),
            forall|i: int| 0 <= i < it.index() ==> *(#[trigger] it.seq()[i]).0 + it.seq()[i].1@.len() <= r,
    {
        let (k, v) = kv;
        proof {
            let i = it.index();
            assert(kv == it.seq()[i]);
            assert(m@.contains_key(*it.seq()[i].0));
            assert(m@[*k] == *v);
        }
        let e: Link = *k + v.len() as Link;
        if e > r {
            r = e;
        }
    }
    r
}

/// Every subobject list of the score ends (key plus length) at most at `r`.
pub open spec fn all_sub_ends_within(s: InterpretedScore, r: int) -> bool {
    &&& sub_ends_within(s.staffs@, r)
    &&& sub_ends_within(s.clefs@, r)
    &&& sub_ends_within(s.keysigs@, r)
    &&& sub_ends_within(s.timesigs@, r)
    &&& sub_ends_within(s.connects@, r)
    &&& sub_ends_within(s.notes@, r)
    &&& sub_ends_within(s.notebeams@, r)
    &&& sub_ends_within(s.dynamics@, r)
    &&& sub_ends_within(s.measures@, r)
    &&& sub_ends_within(s.slurs@, r)
}

/// Some subobject list of the score ends (key plus length) exactly at `r`.
pub open spec fn some_sub_end_attained(s: InterpretedScore, r: int) -> bool {
    ||| sub_end_attained(s.staffs@, r)
    ||| sub_end_attained(s.clefs@, r)
    ||| sub_end_attained(s.keysigs@, r)
    ||| sub_end_attained(s.timesigs@, r)
    ||| sub_end_attained(s.connects@, r)
    ||| sub_end_attained(s.notes@, r)
    ||| sub_end_attained(s.notebeams@, r)
    ||| sub_end_attained(s.dynamics@, r)
    ||| sub_end_attained(s.measures@, r)
    ||| sub_end_attained(s.slurs@, r)
}

/// The end (key plus length) of the subobject list that ends last, over all
/// the score's subobject stores; 0 when there is none.
pub open spec fn sub_link_max(s: InterpretedScore) -> int {
    choose|r: int| 0 <= r && all_sub_ends_within(s, r) && (r == 0 || some_sub_end_attained(s, r))
}

proof fn lemma_sub_link_max_unique(s: InterpretedScore, r: int)
    requires
        0 <= r,
        all_sub_ends_within(s, r),
        r == 0 || some_sub_end_attained(s, r),
    ensures
        sub_link_max(s) == r,
{
    let r2 = sub_link_max(s);
    assert(0 <= r2 && all_sub_ends_within(s, r2) && (r2 == 0 || some_sub_end_attained(s, r2)));
    if r > 0 {
        assert(r <= r2);
    }
    if r2 > 0 {
        assert(r2 <= r);
    }
}

/// The end of the subobject list that ends last (see `sub_link_max`). A key
/// past it is free for a new list.
pub fn find_max_sub_link(score: &InterpretedScore) -> (r: Link)
    requires
        all_sub_ends_within(*score, u16::MAX as int),
    ensures
        all_sub_ends_within(*score, r as int),
        r == 0 || some_sub_end_attained(*score, r as int),
        r == sub_link_max(*score),
{
    let r0: Link = 0;
    let r1 = max_sub_end(&score.staffs, r0);
    let r2 = max_sub_end(&score.clefs, r1);
    let r3 = max_sub_end(&score.keysigs, r2);
    let r4 = max_sub_end(&score.timesigs, r3);
    let r5 = max_sub_end(&score.connects, r4);
    let r6 = max_sub_end(&score.notes, r5);
    let r7 = max_sub_end(&score.notebeams, r6);
    let r8 = max_sub_end(&score.dynamics, r7);
    let r9 = max_sub_end(&score.measures, r8);
    let r10 = max_sub_end(&score.slurs, r9);
    proof { lemma_sub_link_max_unique(*score, r10 as int); }
    r10
}

/// A staff subobject with the geometry of staff `i` of a system laid out
/// by `c`; its other fields kept.
pub open spec fn fixed_staff(st: AStaff, i: int, c: LayoutConfig) -> AStaff {
    let dls = spec_d_line_sp(c.staff_height);
    AStaff {
        staff_top: ((i as i16) as int * c.inter_staff as int) as i16,
        staff_left: 0,
        staff_right: (c.system_right - c.system_left) as i16,
        staff_height: c.staff_height,
        ledger_width: dls as i16,
        note_head_width: dls as i16,
        frac_beam_width: trunc_div(dls, 2) as i16,
        flag_leading: 0,
        space_below: (c.inter_staff - c.staff_height) as i16,
        ..st
    }
}

/// Each staff of a list given the geometry of its position (`fixed_staff`).
pub open spec fn fixed_staff_list(l: Seq<AStaff>, c: LayoutConfig) -> Seq<AStaff> {
    Seq::new(l.len(), |i: int| fixed_staff(l[i], i, c))
}

/// The staff geometry of every list of `m` fits 16 bits.
pub open spec fn staff_geometry_fits(m: Map<Link, Vec<AStaff>>, c: LayoutConfig) -> bool {
    &&& i16::MIN <= c.system_right - c.system_left <= i16::MAX
    &&& i16::MIN <= c.inter_staff - c.staff_height <= i16::MAX
    &&& forall|k: Link, i: int| #[trigger] m.contains_key(k) && 0 <= i < m[k]@.len()
        ==> i16::MIN <= #[trigger] ((i as i16) as int * c.inter_staff as int) <= i16::MAX
}

fn fixed_staff_vec(v: &Vec<AStaff>, config: &LayoutConfig) -> (r: Vec<AStaff>)
    requires
        i16::MIN <= config.system_right - config.system_left <= i16::MAX,
        i16::MIN <= config.inter_staff - config.staff_height <= i16::MAX,
        forall|i: int| 0 <= i < v@.len()
            ==> i16::MIN <= #[trigger] ((i as i16) as int * config.inter_staff as int) <= i16::MAX,
    ensures
        r@ == fixed_staff_list(v@, *config),
{
    let (ledger_w, notehead_w, frac_beam_w, flag_lead) = config.staff_metrics();
    let content_width = config.content_width();
    let mut r: Vec<AStaff> = Vec::new();
    let mut i: usize = 0;
    while i < v.len()
        invariant
            i <= v@.len(),
            r@ =~= fixed_staff_list(v@, *config).take(i as int),
            i16::MIN <= config.inter_staff - config.staff_height <= i16::MAX,
            forall|j: int| 0 <= j < v@.len()
                ==> i16::MIN <= #[trigger] ((j as i16) as int * config.inter_staff as int) <= i16::MAX,
            content_width == config.system_right - config.system_left,
            ledger_w == spec_d_line_sp(config.staff_height),
            notehead_w == spec_d_line_sp(config.staff_height),
            frac_beam_w == trunc_div(spec_d_line_sp(config.staff_height), 2),
            flag_lead == 0,
        decreases v@.len() - i,
    {
        let i16v: Ddist = #[verifier::truncate] (i as Ddist);
        assert(i16::MIN <= (i16v as int) * config.inter_staff as int <= i16::MAX);
        let mut st = v[i];
        st.staff_top = i16v * config.inter_staff;
        st.staff_left = 0;
        st.staff_right = content_width;
        st.staff_height = config.staff_height;
        st.ledger_width = ledger_w;
        st.note_head_width = notehead_w;
        st.frac_beam_width = frac_beam_w;
        st.flag_leading = flag_lead;
        st.space_below = config.inter_staff - config.staff_height;
        r.push(st);
        i = i + 1;
    }
    assert(fixed_staff_list(v@, *config).take(v@.len() as int) =~= fixed_staff_list(v@, *config));
    r
}

/// Give every staff subobject of the score the geometry of its position in
/// its list (`fixed_staff`); nothing else changes.
pub fn fix_staff_geometry(score: &mut InterpretedScore, config: &LayoutConfig)
    requires
        staff_geometry_fits(old(score).staffs@, *config),
    ensures
        final(score).staffs@.dom() == old(score).staffs@.dom(),
        forall|k: Link| #[trigger] old(score).staffs@.contains_key(k)
            ==> final(score).staffs@[k]@ == fixed_staff_list(old(score).staffs@[k]@, *config),
        final(score).objects@ == old(score).objects@,
        final(score).head_l == old(score).head_l,
        final(score).measures@ == old(score).measures@,
        final(score).clefs@ == old(score).clefs@,
        final(score).keysigs@ == old(score).keysigs@,
        final(score).timesigs@ == old(score).timesigs@,
        final(score).dynamics@ == old(score).dynamics@,
        final(score).notes@ == old(score).notes@,
        final(score).connects@ == old(score).connects@,
        final(score).notebeams@ == old(score).notebeams@,
        final(score).slurs@ == old(score).slurs@,
        final(score).part_infos@ == old(score).part_infos@,
        final(score).number_meas == old(score).number_meas,
        final(score).first_mn_number == old(score).first_mn_number,
        final(score).above_mn == old(score).above_mn,
        final(score).start_mn_print1 == old(score).start_mn_print1,
{
    let mut fixed: HashMap<Link, Vec<AStaff>> = HashMap::new();
    let ghost s = spec_hash_map_iter(&score.staffs).remaining();
    let ghost mut n: int = 0;
    for kv in it: score.staffs.iter()
        invariant
            it.seq() == s,
            s == spec_hash_map_iter(&score.staffs).remaining(),
            n == it.index(),
            staff_geometry_fits(score.staffs@, *config),
            forall|k: Link| #[trigger] fixed@.contains_key(k) <==>
                exists|i: int| 0 <= i < it.index() && *(#[trigger] it.seq()[i]).0 == k,
            forall|k: Link| #[trigger] fixed@.contains_key(k) ==> score.staffs@.contains_key(k)
                && fixed@[k]@ == fixed_staff_list(score.staffs@[k]@, *config),
    {
        let (k, v) = kv;
        proof {
            let i = it.index();
            assert(kv == it.seq()[i]);
            assert(score.staffs@.contains_key(*it.seq()[i].0));
            assert(score.staffs@[*k] == *v);
        }
        let nv = fixed_staff_vec(v, config);
        fixed.insert(*k, nv);
        proof { n = n + 1; }
    }
    proof {
        assert(n == s.len());
        assert forall|k: Link| score.staffs@.contains_key(k) implies #[trigger] fixed@.contains_key(k) by {
            assert(s.contains((&k, &score.staffs@[k])));
            let i = choose|i: int| 0 <= i < s.len() && s[i] == (&k, &score.staffs@[k]);
            assert(*s[i].0 == k);
        }
        assert(fixed@.dom() =~= score.staffs@.dom());
    }
    score.staffs = fixed;
}

/// The rectangle of a system at row `sys_in_page` of its page: its top is
/// the top margin plus `sys_in_page` inter-system spacings, its height that
/// of `ns` staves, its sides the configured margins.
pub open spec fn system_rect_at(c: LayoutConfig, ns: usize, sys_in_page: usize) -> DRect {
    let top = c.system_top as int + (sys_in_page as i16) as int * c.inter_system as int;
    DRect {
        top: top as i16,
        left: c.system_left,
        bottom: (top + spec_system_height(c, ns)) as i16,
        right: c.system_right,
    }
}

/// The arithmetic of `system_rect_at` fits 16 bits.
pub open spec fn system_rect_fits(c: LayoutConfig, ns: usize, sys_in_page: usize) -> bool {
    let top = c.system_top as int + (sys_in_page as i16) as int * c.inter_system as int;
    &&& (ns as i16) as int - 1 >= i16::MIN
    &&& i16::MIN <= ((ns as i16) as int - 1) * c.inter_staff as int <= i16::MAX
    &&& i16::MIN <= spec_system_height(c, ns) <= i16::MAX
    &&& i16::MIN <= (sys_in_page as i16) as int * c.inter_system as int <= i16::MAX
    &&& i16::MIN <= top <= i16::MAX
    &&& i16::MIN <= top + spec_system_height(c, ns) <= i16::MAX
}

/// Give the first System object (`preamble.system_link`) the rectangle of
/// row `sys_in_page` (`system_rect_at`); an object there that is no System
/// is left as it is, and nothing else changes.
pub fn fix_system_geometry_at(
    score: &mut InterpretedScore,
    config: &LayoutConfig,
    preamble: &PreambleInfo,
    sys_in_page: usize,
)
    requires
        (preamble.system_link as int) < old(score).objects@.len(),
        system_rect_fits(*config, preamble.num_staves, sys_in_page),
    ensures
        final(score).objects@ == (match old(score).objects@[preamble.system_link as int].data {
            ObjData::System(sys) => old(score).objects@.update(
                preamble.system_link as int,
                InterpretedObject {
                    data: ObjData::System(System { system_rect: system_rect_at(*config, preamble.num_staves, sys_in_page), ..sys }),
                    ..old(score).objects@[preamble.system_link as int]
                },
            ),
            _ => old(score).objects@,
        }),
        same_except_objects(*final(score), *old(score)),
{
    let ns: Ddist = #[verifier::truncate] (preamble.num_staves as Ddist);
    let row: Ddist = #[verifier::truncate] (sys_in_page as Ddist);
    let system_height: Ddist = config.staff_height + (ns - 1) * config.inter_staff;
    let sys_top: Ddist = config.system_top + row * config.inter_system;
    let sys_bottom: Ddist = sys_top + system_height;
    let link = preamble.system_link as usize;
    let mut obj = score.objects[link];
    if let ObjData::System(sys) = obj.data {
        let mut sys2 = sys;
        sys2.system_rect = DRect { top: sys_top, left: config.system_left, bottom: sys_bottom, right: config.system_right };
        obj.data = ObjData::System(sys2);
        score.objects.set(link, obj);
    }
}

/// Some key signature subobject of `m` is present.
pub open spec fn has_ks_items(m: Map<Link, Vec<AKeySig>>) -> bool {
    exists|k: Link, i: int| #[trigger] m.contains_key(k) && 0 <= i < m[k]@.len() && #[trigger] m[k]@[i] == m[k]@[i]
}

/// Every key signature subobject of `m` has at most `r` accidentals.
pub open spec fn ks_items_at_most(m: Map<Link, Vec<AKeySig>>, r: int) -> bool {
    forall|k: Link, i: int| #[trigger] m.contains_key(k) && 0 <= i < m[k]@.len()
        ==> #[trigger] m[k]@[i].ks_info.n_ks_items <= r
}

/// Some key signature subobject of `m` has exactly `r` accidentals.
pub open spec fn ks_items_attained(m: Map<Link, Vec<AKeySig>>, r: int) -> bool {
    exists|k: Link, i: int| #[trigger] m.contains_key(k) && 0 <= i < m[k]@.len()
        && #[trigger] m[k]@[i].ks_info.n_ks_items == r
}

/// `(found, best)` updated by the accidental counts of `v`: `found` once
/// any count was seen, `best` the largest seen.
fn max_ks_in_list(v: &Vec<AKeySig>, found: bool, best: i8) -> (r: (bool, i8))
    requires
        !found ==> best == 0,
    ensures
        r.0 == (found || v@.len() > 0),
        !r.0 ==> r.1 == 0,
        found ==> best <= r.1,
        forall|i: int| 0 <= i < v@.len() ==> (#[trigger] v@[i]).ks_info.n_ks_items <= r.1,
        r.1 == best || exists|i: int| 0 <= i < v@.len() && (#[trigger] v@[i]).ks_info.n_ks_items == r.1,
        r.0 && !found ==> exists|i: int| 0 <= i < v@.len() && (#[trigger] v@[i]).ks_info.n_ks_items == r.1,
{
    let mut f = found;
    let mut b = best;
    let mut i: usize = 0;
    while i < v.len()
        invariant
            i <= v@.len(),
            f == (found || i > 0),
            !f ==> b == 0,
            found ==> best <= b,
            forall|i2: int| 0 <= i2 < i ==> (#[trigger] v@[i2]).ks_info.n_ks_items <= b,
            b == best || exists|i2: int| 0 <= i2 < i && (#[trigger] v@[i2]).ks_info.n_ks_items == b,
            f && !found ==> exists|i2: int| 0 <= i2 < i && (#[trigger] v@[i2]).ks_info.n_ks_items == b,
        decreases v@.len() - i,
    {
        let c = v[i].ks_info.n_ks_items;
        if !f || c > b {
            b = c;
        }
        f = true;
        i = i + 1;
    }
    (f, b)
}

/// The largest accidental count over all key signature subobjects of `m`,
/// 0 when there are none.
pub open spec fn max_ks_value(m: Map<Link, Vec<AKeySig>>) -> int {
    if has_ks_items(m) {
        choose|r: int| ks_items_at_most(m, r) && ks_items_attained(m, r)
    } else {
        0
    }
}

/// The largest accidental count (see `max_ks_value`).
fn max_ks_items(m: &HashMap<Link, Vec<AKeySig>>) -> (r: i8)
    ensures
        has_ks_items(m@) ==> ks_items_at_most(m@, r as int) && ks_items_attained(m@, r as int),
        !has_ks_items(m@) ==> r == 0,
        r == max_ks_value(m@),
{
    let ghost s = spec_hash_map_iter(m).remaining();
    let ghost mut n: int = 0;
    let mut found = false;
    let mut best: i8 = 0;
    for kv in it: m.iter()
        invariant
            it.seq() == s,
            s == spec_hash_map_iter(m).remaining(),
            n == it.index(),
            found ==> ks_items_attained(m@, best as int),
            !found ==> best == 0,
            found == exists|j: int| 0 <= j < n && (#[trigger] s[j]).1@.len() > 0,
            forall|j: int, i: int| 0 <= j < n && 0 <= i < s[j].1@.len()
                ==> (#[trigger] s[j].1@[i]).ks_info.n_ks_items <= best,
    {
        let (k, v) = kv;
        proof {
            assert(kv == it.seq()[n]);
            assert(m@.contains_key(*s[n].0));
            assert(m@[*k] == *v);
        }
        let ghost old_found = found;
        let ghost old_best = best;
        let (f, b) = max_ks_in_list(v, found, best);
        found = f;
        best = b;
        proof {
            if b != old_best || (f && !old_found) {
                if exists|i: int| 0 <= i < v@.len() && (#[trigger] v@[i]).ks_info.n_ks_items == b {
                    let i = choose|i: int| 0 <= i < v@.len() && (#[trigger] v@[i]).ks_info.n_ks_items == b;
                    assert(m@[*k]@[i].ks_info.n_ks_items == b);
                }
            }
            assert forall|j: int| 0 <= j < n + 1 && (#[trigger] s[j]).1@.len() > 0 implies found by {}
            if found && !old_found {
                assert(s[n].1@.len() > 0);
            }
            n = n + 1;
        }
    }
    proof {
        assert(n == s.len());
        assert forall|k: Link, i: int| #[trigger] m@.contains_key(k) && 0 <= i < m@[k]@.len()
            implies #[trigger] m@[k]@[i].ks_info.n_ks_items <= best by {
            assert(s.contains((&k, &m@[k])));
            let j = choose|j: int| 0 <= j < s.len() && s[j] == (&k, &m@[k]);
            assert(s[j].1@[i] == m@[k]@[i]);
        }
        if has_ks_items(m@) {
            let (k, i) = choose|k: Link, i: int| #[trigger] m@.contains_key(k) && 0 <= i < m@[k]@.len() && #[trigger] m@[k]@[i] == m@[k]@[i];
            assert(s.contains((&k, &m@[k])));
            let j = choose|j: int| 0 <= j < s.len() && s[j] == (&k, &m@[k]);
            assert(s[j].1@.len() > 0);
            assert(found);
            let r2 = choose|r: int| ks_items_at_most(m@, r) && ks_items_attained(m@, r);
            assert(ks_items_at_most(m@, best as int) && ks_items_attained(m@, best as int));
            let (k1, i1) = choose|k: Link, i: int| #[trigger] m@.contains_key(k) && 0 <= i < m@[k]@.len()
                && #[trigger] m@[k]@[i].ks_info.n_ks_items == r2;
            let (k2, i2) = choose|k: Link, i: int| #[trigger] m@.contains_key(k) && 0 <= i < m@[k]@.len()
                && #[trigger] m@[k]@[i].ks_info.n_ks_items == best;
            assert(r2 <= best);
            assert(best <= r2);
        }
    }
    best
}

/// No object of `objs` up to and including position `i` is a Measure.
pub open spec fn before_first_measure(objs: Seq<InterpretedObject>, i: int) -> bool {
    forall|j: int| 0 <= j <= i ==> !(#[trigger] objs[j].data is Measure)
}

/// `o` moved to its preamble position: a Clef or KeySig outside any measure
/// to `clef_xd` or `ks_xd`, any TimeSig to `ts_xd`; other objects as they are.
pub open spec fn with_preamble_xd(o: InterpretedObject, clef_xd: int, ks_xd: int, ts_xd: int) -> InterpretedObject {
    match o.data {
        ObjData::Clef(c) => if !c.in_measure {
            InterpretedObject { header: ObjectHeader { xd: clef_xd as i16, ..o.header }, ..o }
        } else {
            o
        },
        ObjData::KeySig(k) => if !k.in_measure {
            InterpretedObject { header: ObjectHeader { xd: ks_xd as i16, ..o.header }, ..o }
        } else {
            o
        },
        ObjData::TimeSig(_) => InterpretedObject { header: ObjectHeader { xd: ts_xd as i16, ..o.header }, ..o },
        _ => o,
    }
}

/// Preamble positions of the first system: the clef at one line spacing,
/// the key signature 3.5 line spacings further, the time signature after
/// the widest key signature of the score (`max_ks`).
pub open spec fn preamble_clef_xd(c: LayoutConfig) -> int {
    spec_d_line_sp(c.staff_height)
}

/// Position of the first system's key signature (see `preamble_clef_xd`).
pub open spec fn preamble_ks_xd(c: LayoutConfig) -> int {
    let dls = spec_d_line_sp(c.staff_height);
    dls + trunc_div(7 * dls, 2)
}

/// Position of the first system's time signature (see `preamble_clef_xd`).
pub open spec fn preamble_ts_xd(c: LayoutConfig, max_ks: int) -> int {
    preamble_ks_xd(c) + spec_ks_width(max_ks, c.staff_height)
}

/// The preamble positions fit 16 bits.
pub open spec fn preamble_positions_fit(c: LayoutConfig, max_ks: int) -> bool {
    let dls = spec_d_line_sp(c.staff_height);
    &&& ks_width_fits(max_ks, c.staff_height)
    &&& i16::MIN <= 7 * dls <= i16::MAX
    &&& i16::MIN <= preamble_ks_xd(c) <= i16::MAX
    &&& i16::MIN <= preamble_ts_xd(c, max_ks) <= i16::MAX
}

fn is_measure_at(objs: &Vec<InterpretedObject>, i: usize) -> (r: bool)
    requires
        i < objs@.len(),
    ensures
        r == objs@[i as int].data is Measure,
{
    if let ObjData::Measure(_) = objs[i].data { true } else { false }
}

/// Move the Clef, KeySig and TimeSig objects that come before the first
/// Measure (in storage order) to their preamble positions
/// (`with_preamble_xd`, with the widest key signature of the score);
/// nothing else changes.
pub fn fix_preamble_positions(score: &mut InterpretedScore, config: &LayoutConfig)
    requires
        preamble_positions_fit(*config, max_ks_value(old(score).keysigs@)),
    ensures
        final(score).objects@ == Seq::new(old(score).objects@.len(), |j: int|
            if before_first_measure(old(score).objects@, j) {
                with_preamble_xd(old(score).objects@[j], preamble_clef_xd(*config), preamble_ks_xd(*config),
                    preamble_ts_xd(*config, max_ks_value(old(score).keysigs@)))
            } else {
                old(score).objects@[j]
            }),
        same_except_objects(*final(score), *old(score)),
{
    let ghost objs0 = score.objects@;
    let ghost s0 = *score;
    let dls = config.d_line_sp();
    let clef_xd: Ddist = dls;
    let max_ks = max_ks_items(&score.keysigs);
    let ksw = ks_width(max_ks, config.staff_height, dls);
    proof { lemma_trunc_div_bounded(7 * dls as int, 2); }
    let keysig_xd: Ddist = clef_xd + (7 * dls) / 2;
    let timesig_xd: Ddist = keysig_xd + ksw;
    let mut i: usize = 0;
    while i < score.objects.len() && !is_measure_at(&score.objects, i)
        invariant
            score.objects@.len() == objs0.len(),
            same_except_objects(*score, s0),
            clef_xd == preamble_clef_xd(*config),
            keysig_xd == preamble_ks_xd(*config),
            timesig_xd == preamble_ts_xd(*config, max_ks_value(s0.keysigs@)),
            i <= objs0.len(),
            forall|j: int| 0 <= j < i ==> before_first_measure(objs0, j),
            forall|j: int| 0 <= j < i ==> #[trigger] score.objects@[j]
                == with_preamble_xd(objs0[j], clef_xd as int, keysig_xd as int, timesig_xd as int),
            forall|j: int| i <= j < objs0.len() ==> #[trigger] score.objects@[j] == objs0[j],
        decreases objs0.len() - i,
    {
        let mut obj = score.objects[i];
        match obj.data {
            ObjData::Clef(c) => {
                if !c.in_measure {
                    obj.header.xd = clef_xd;
                }
            },
            ObjData::KeySig(k) => {
                if !k.in_measure {
                    obj.header.xd = keysig_xd;
                }
            },
            ObjData::TimeSig(_) => {
                obj.header.xd = timesig_xd;
            },
            _ => {},
        }
        score.objects.set(i, obj);
        proof {
            assert forall|j: int| 0 <= j <= i implies !(#[trigger] objs0[j].data is Measure) by {
                if j < i {
                    assert(before_first_measure(objs0, j));
                }
            }
        }
        i = i + 1;
    }
    proof {
        assert forall|j: int| i <= j < objs0.len() implies !before_first_measure(objs0, j) by {
            assert(objs0[i as int].data is Measure);
        }
        assert(score.objects@ =~= Seq::new(objs0.len(), |j: int|
            if before_first_measure(objs0, j) {
                with_preamble_xd(objs0[j], preamble_clef_xd(*config), preamble_ks_xd(*config),
                    preamble_ts_xd(*config, max_ks_value(s0.keysigs@)))
            } else {
                objs0[j]
            }));
    }
}

/// What `PreambleInfo` holds, as mathematical values.
pub ghost struct PreambleView {
    pub num_staves: nat,
    pub clef_types: Seq<i8>,
    pub ks_info: KsInfo,
    pub time_num: i8,
    pub time_denom: i8,
    pub has_connect: bool,
    pub connect_type: u8,
    pub staff_above: i8,
    pub staff_below: i8,
    pub system_link: Link,
    pub page_link: Link,
    pub tail_link: Link,
}

impl View for PreambleInfo {
    type V = PreambleView;

    open spec fn view(&self) -> PreambleView {
        PreambleView {
            num_staves: self.num_staves as nat,
            clef_types: self.clef_types@,
            ks_info: self.ks_info,
            time_num: self.time_num,
            time_denom: self.time_denom,
            has_connect: self.has_connect,
            connect_type: self.connect_type,
            staff_above: self.staff_above,
            staff_below: self.staff_below,
            system_link: self.system_link,
            page_link: self.page_link,
            tail_link: self.tail_link,
        }
    }
}

/// The link of the first Tail object in storage order (its position taken
/// as a 16-bit link), `NILINK` when there is none.
pub open spec fn first_tail_link(objs: Seq<InterpretedObject>, i: int) -> Link
    decreases objs.len() - i,
{
    if i < 0 || i >= objs.len() {
        NILINK
    } else if objs[i].data is Tail {
        i as Link
    } else {
        first_tail_link(objs, i + 1)
    }
}

/// The preamble before anything is found: no staves, 4/4, no accidentals,
/// a default connect, no links, the given Tail link.
pub open spec fn initial_preamble(tail_link: Link) -> PreambleView {
    PreambleView {
        num_staves: 0,
        clef_types: Seq::empty(),
        ks_info: KsInfo::empty(),
        time_num: 4,
        time_denom: 4,
        has_connect: false,
        connect_type: 3,
        staff_above: 1,
        staff_below: 1,
        system_link: NILINK,
        page_link: NILINK,
        tail_link,
    }
}

/// What object `o` adds to the preamble: a Page or System its link; a
/// Staff with a subobject list the staff count, the clefs, and (from its
/// first staff) the key and time signature; a Connect its presence and
/// (from its first subobject) its type and staves; a Clef outside any
/// measure its clefs; a KeySig outside any measure (from its first
/// subobject) the key signature; a TimeSig (from its first subobject) the
/// time signature.
pub open spec fn preamble_step(score: InterpretedScore, acc: PreambleView, o: InterpretedObject) -> PreambleView {
    let sub = o.header.first_sub_obj;
    match o.data {
        ObjData::Page(_) => PreambleView { page_link: o.index, ..acc },
        ObjData::System(_) => PreambleView { system_link: o.index, ..acc },
        ObjData::Staff(_) => if score.staffs@.contains_key(sub) {
            let l = score.staffs@[sub]@;
            let a = PreambleView { num_staves: l.len(), clef_types: l.map_values(|st: AStaff| st.clef_type), ..acc };
            if l.len() > 0 {
                PreambleView { ks_info: l[0].ks_info, time_num: l[0].numerator, time_denom: l[0].denominator, ..a }
            } else {
                a
            }
        } else {
            acc
        },
        ObjData::Connect(_) => {
            let a = PreambleView { has_connect: true, ..acc };
            if score.connects@.contains_key(sub) && score.connects@[sub]@.len() > 0 {
                let c = score.connects@[sub]@[0];
                PreambleView { connect_type: c.connect_type, staff_above: c.staff_above, staff_below: c.staff_below, ..a }
            } else {
                a
            }
        },
        ObjData::Clef(c) => if !c.in_measure && score.clefs@.contains_key(sub) {
            PreambleView { clef_types: score.clefs@[sub]@.map_values(|cl: AClef| cl.header.sub_type), ..acc }
        } else {
            acc
        },
        ObjData::KeySig(k) => if !k.in_measure && score.keysigs@.contains_key(sub) && score.keysigs@[sub]@.len() > 0 {
            PreambleView { ks_info: score.keysigs@[sub]@[0].ks_info, ..acc }
        } else {
            acc
        },
        ObjData::TimeSig(_) => if score.timesigs@.contains_key(sub) && score.timesigs@[sub]@.len() > 0 {
            let t = score.timesigs@[sub]@[0];
            PreambleView { time_num: t.numerator, time_denom: t.denominator, ..acc }
        } else {
            acc
        },
        _ => acc,
    }
}

/// The preamble gathered from the objects at `links`, in order, up to the
/// first Measure.
pub open spec fn preamble_fold(score: InterpretedScore, links: Seq<Link>, acc: PreambleView) -> PreambleView
    decreases links.len(),
{
    if links.len() == 0 {
        acc
    } else {
        let o = score.objects@[links[0] as int];
        if o.data is Measure {
            acc
        } else {
            preamble_fold(score, links.drop_first(), preamble_step(score, acc, o))
        }
    }
}

/// The preamble of the score's first system: gathered along the walk up to
/// the first Measure, starting from `initial_preamble` with the first Tail.
pub open spec fn spec_preamble(score: InterpretedScore) -> PreambleView {
    preamble_fold(score, score.walk_order(), initial_preamble(first_tail_link(score.objects@, 0)))
}

fn find_tail_link(objs: &Vec<InterpretedObject>) -> (r: Link)
    ensures
        r == first_tail_link(objs@, 0),
{
    let mut i: usize = 0;
    while i < objs.len()
        invariant
            i <= objs@.len(),
            first_tail_link(objs@, 0) == first_tail_link(objs@, i as int),
        decreases objs@.len() - i,
    {
        if let ObjData::Tail(_) = objs[i].data {
            return #[verifier::truncate] (i as Link);
        }
        i = i + 1;
    }
    NILINK
}

fn staff_clef_types(l: &Vec<AStaff>) -> (r: Vec<i8>)
    ensures
        r@ == l@.map_values(|st: AStaff| st.clef_type),
{
    let mut r: Vec<i8> = Vec::new();
    let mut i: usize = 0;
    while i < l.len()
        invariant
            i <= l@.len(),
            r@ =~= l@.map_values(|st: AStaff| st.clef_type).take(i as int),
        decreases l@.len() - i,
    {
        r.push(l[i].clef_type);
        i = i + 1;
    }
    assert(l@.map_values(|st: AStaff| st.clef_type).take(l@.len() as int) =~= l@.map_values(|st: AStaff| st.clef_type));
    r
}

fn clef_sub_types(l: &Vec<AClef>) -> (r: Vec<i8>)
    ensures
        r@ == l@.map_values(|cl: AClef| cl.header.sub_type),
{
    let mut r: Vec<i8> = Vec::new();
    let mut i: usize = 0;
    while i < l.len()
        invariant
            i <= l@.len(),
            r@ =~= l@.map_values(|cl: AClef| cl.header.sub_type).take(i as int),
        decreases l@.len() - i,
    {
        r.push(l[i].header.sub_type);
        i = i + 1;
    }
    assert(l@.map_values(|cl: AClef| cl.header.sub_type).take(l@.len() as int) =~= l@.map_values(|cl: AClef| cl.header.sub_type));
    r
}

/// The preamble of the score's first system (`spec_preamble`), or `None`
/// when it has no staves.
pub fn extract_preamble(score: &InterpretedScore) -> (r: Option<PreambleInfo>)
    ensures
        r is Some <==> spec_preamble(*score).num_staves > 0,
        r matches Some(p) ==> p@ == spec_preamble(*score),
{
    let mut info = PreambleInfo {
        num_staves: 0,
        clef_types: Vec::new(),
        ks_info: KsInfo::default(),
        time_num: 4,
        time_denom: 4,
        has_connect: false,
        connect_type: 3,
        staff_above: 1,
        staff_below: 1,
        system_link: NILINK,
        page_link: NILINK,
        tail_link: NILINK,
    };
    info.tail_link = find_tail_link(&score.objects);
    let order = score.walk();
    let ghost init = info@;
    assert(init == initial_preamble(first_tail_link(score.objects@, 0)));
    assert(order@.skip(0) =~= order@);
    let mut i: usize = 0;
    while i < order.len()
        invariant
            order@ == score.walk_order(),
            forall|j: int| 0 <= j < order@.len() ==> (#[trigger] order@[j] as int) < score.objects@.len(),
            i <= order@.len(),
            preamble_fold(*score, order@, init) == preamble_fold(*score, order@.skip(i as int), info@),
            init == initial_preamble(first_tail_link(score.objects@, 0)),
        ensures
            preamble_fold(*score, order@, init) == info@,
        decreases order@.len() - i,
    {
        let l = order[i];
        let obj = &score.objects[l as usize];
        let ghost before = info@;
        assert(order@.skip(i as int)[0] == l);
        assert(order@.skip(i as int).drop_first() =~= order@.skip(i as int + 1));
        if let ObjData::Measure(_) = obj.data {
            break;
        }
        let sub = obj.header.first_sub_obj;
        match &obj.data {
            ObjData::Page(_) => {
                info.page_link = obj.index;
            },
            ObjData::System(_) => {
                info.system_link = obj.index;
            },
            ObjData::Staff(_) => {
                if let Some(staffs) = score.staffs.get(&sub) {
                    info.num_staves = staffs.len();
                    info.clef_types = staff_clef_types(staffs);
                    if staffs.len() > 0 {
                        info.ks_info = staffs[0].ks_info;
                        info.time_num = staffs[0].numerator;
                        info.time_denom = staffs[0].denominator;
                    }
                }
            },
            ObjData::Connect(_) => {
                info.has_connect = true;
                if let Some(conns) = score.connects.get(&sub) {
                    if conns.len() > 0 {
                        info.connect_type = conns[0].connect_type;
                        info.staff_above = conns[0].staff_above;
                        info.staff_below = conns[0].staff_below;
                    }
                }
            },
            ObjData::Clef(c) => {
                if !c.in_measure {
                    if let Some(clefs) = score.clefs.get(&sub) {
                        info.clef_types = clef_sub_types(clefs);
                    }
                }
            },
            ObjData::KeySig(k) => {
                if !k.in_measure {
                    if let Some(kss) = score.keysigs.get(&sub) {
                        if kss.len() > 0 {
                            info.ks_info = kss[0].ks_info;
                        }
                    }
                }
            },
            ObjData::TimeSig(_) => {
                if let Some(tss) = score.timesigs.get(&sub) {
                    if tss.len() > 0 {
                        info.time_num = tss[0].numerator;
                        info.time_denom = tss[0].denominator;
                    }
                }
            },
            _ => {},
        }
        assert(info@ == preamble_step(*score, before, score.objects@[l as int]));
        i = i + 1;
    }
    if info.num_staves > 0 {
        Some(info)
    } else {
        None
    }
}

/// One measure of the object list: its Measure object, the last object of
/// its chain, and its Syncs with their times and their notes' (duration
/// code, dots, rest, accidental).
#[derive(Debug, Clone)]
pub struct MeasureInfo {
    /// The Measure object.
    pub obj_link: Link,
    /// The last object of the measure, before the next Measure or the Tail.
    pub last_link: Link,
    /// The Sync objects of the measure, in list order.
    pub sync_links: Vec<Link>,
    /// The time of each Sync.
    pub sync_times: Vec<i32>,
    /// The notes of each Sync: (duration code, dots, rest, accidental).
    pub sync_note_infos: Vec<Vec<(i8, u8, bool, u8)>>,
}

/// What `MeasureInfo` holds, as mathematical values.
#[verifier::ext_equal]
pub ghost struct MeasureView {
    pub obj_link: Link,
    pub last_link: Link,
    pub sync_links: Seq<Link>,
    pub sync_times: Seq<i32>,
    pub sync_note_infos: Seq<Seq<(i8, u8, bool, u8)>>,
}

impl View for MeasureInfo {
    type V = MeasureView;

    open spec fn view(&self) -> MeasureView {
        MeasureView {
            obj_link: self.obj_link,
            last_link: self.last_link,
            sync_links: self.sync_links@,
            sync_times: self.sync_times@,
            sync_note_infos: self.sync_note_infos@.map_values(|v: Vec<(i8, u8, bool, u8)>| v@),
        }
    }
}

/// The state of a walk that gathers measures: the measures closed so far,
/// the measure being gathered, and the last object seen inside it.
pub ghost struct MeasureScan {
    pub done: Seq<MeasureView>,
    pub current: Option<MeasureView>,
    pub last: Link,
}

/// The notes of the subobject list `sub` as (duration code, dots, rest,
/// accidental); none when the list is missing.
pub open spec fn note_infos_of(score: InterpretedScore, sub: Link) -> Seq<(i8, u8, bool, u8)> {
    if score.notes@.contains_key(sub) {
        score.notes@[sub]@.map_values(|n: ANote| (n.header.sub_type, n.ndots, n.rest, n.accident))
    } else {
        Seq::empty()
    }
}

/// The closed measures with the current one, if any, closed at `last`.
pub open spec fn close_current(st: MeasureScan) -> Seq<MeasureView> {
    match st.current {
        Some(m) => st.done.push(MeasureView { last_link: st.last, ..m }),
        None => st.done,
    }
}

/// One object of the walk: a Measure closes the current measure and opens
/// a new one; the Tail closes the current measure; any other object inside
/// a measure becomes its last, and a Sync is added to it.
pub open spec fn measure_step(score: InterpretedScore, st: MeasureScan, o: InterpretedObject) -> MeasureScan {
    match o.data {
        ObjData::Measure(_) => MeasureScan {
            done: close_current(st),
            current: Some(MeasureView {
                obj_link: o.index,
                last_link: o.index,
                sync_links: Seq::empty(),
                sync_times: Seq::empty(),
                sync_note_infos: Seq::empty(),
            }),
            last: o.index,
        },
        ObjData::Tail(_) => MeasureScan { done: close_current(st), current: None, last: st.last },
        _ => match st.current {
            Some(m) => {
                let m2 = match o.data {
                    ObjData::Sync(sy) => MeasureView {
                        sync_links: m.sync_links.push(o.index),
                        sync_times: m.sync_times.push(sy.time_stamp as i32),
                        sync_note_infos: m.sync_note_infos.push(note_infos_of(score, o.header.first_sub_obj)),
                        ..m
                    },
                    _ => m,
                };
                MeasureScan { done: st.done, current: Some(m2), last: o.index }
            },
            None => st,
        },
    }
}

/// The scan after the objects at `links`, in order.
pub open spec fn measure_scan(score: InterpretedScore, links: Seq<Link>, st: MeasureScan) -> MeasureScan
    decreases links.len(),
{
    if links.len() == 0 {
        st
    } else {
        measure_scan(score, links.drop_first(), measure_step(score, st, score.objects@[links[0] as int]))
    }
}

/// The measures of the score along the walk, with the Sync times as stored.
/// A measure not closed by a Measure or the Tail is left out.
pub open spec fn raw_measures(score: InterpretedScore) -> Seq<MeasureView> {
    measure_scan(score, score.walk_order(), MeasureScan { done: Seq::empty(), current: None, last: NILINK }).done
}

/// The shortest positive duration among the notes from position `i` on
/// (codes that are positive only), 0 when there is none.
pub open spec fn min_pos_dur(infos: Seq<(i8, u8, bool, u8)>, i: int) -> int
    decreases infos.len() - i,
{
    if i < 0 || i >= infos.len() {
        0
    } else {
        let d = if infos[i].0 > 0 { spec_code_to_l_dur(infos[i].0 as int, infos[i].1 as int) } else { 0 };
        let rest = min_pos_dur(infos, i + 1);
        if d > 0 && (rest == 0 || d < rest) { d } else { rest }
    }
}

/// The duration a Sync is taken to last when times must be estimated: its
/// shortest positive note duration, a quarter (480) when it has none.
pub open spec fn est_dur(infos: Seq<(i8, u8, bool, u8)>) -> int {
    let m = min_pos_dur(infos, 0);
    if m == 0 { 480 } else { m }
}

/// The estimated start of Sync `e`: the sum of the estimated durations of
/// the Syncs before it.
pub open spec fn est_start(infos: Seq<Seq<(i8, u8, bool, u8)>>, e: int) -> int
    decreases e,
{
    if e <= 0 { 0 } else { est_start(infos, e - 1) + est_dur(infos[e - 1]) }
}

/// A measure whose Syncs all have time 0 (and that has any) gets estimated
/// times.
pub open spec fn needs_times(m: MeasureView) -> bool {
    m.sync_times.len() > 0 && forall|j: int| 0 <= j < m.sync_times.len() ==> #[trigger] m.sync_times[j] == 0
}

/// The measure with estimated Sync times where it needs them.
pub open spec fn with_est_times(m: MeasureView) -> MeasureView {
    if needs_times(m) {
        MeasureView { sync_times: Seq::new(m.sync_note_infos.len(), |e: int| est_start(m.sync_note_infos, e) as i32), ..m }
    } else {
        m
    }
}

/// The estimate of a measure is computable: note durations with dots have
/// codes below 127, and the times fit 32 bits.
pub open spec fn est_times_fit(m: MeasureView) -> bool {
    needs_times(m) ==> {
        &&& forall|e: int, j: int| 0 <= e < m.sync_note_infos.len() && 0 <= j < m.sync_note_infos[e].len()
            && #[trigger] m.sync_note_infos[e][j].0 > 0 && m.sync_note_infos[e][j].1 > 0
            ==> m.sync_note_infos[e][j].0 < 127
        &&& est_start(m.sync_note_infos, m.sync_note_infos.len() as int) <= i32::MAX
    }
}

/// The measures of the score (`raw_measures`), with estimated times where
/// a measure's Syncs all have time 0.
pub open spec fn spec_measures(score: InterpretedScore) -> Seq<MeasureView> {
    raw_measures(score).map_values(|m: MeasureView| with_est_times(m))
}

proof fn lemma_est_start_monotone(infos: Seq<Seq<(i8, u8, bool, u8)>>, e1: int, e2: int)
    requires
        e1 <= e2,
    ensures
        est_start(infos, e1) <= est_start(infos, e2),
    decreases e2 - e1,
{
    if e1 < e2 {
        lemma_est_start_monotone(infos, e1, e2 - 1);
        if e2 - 1 >= 0 {
            lemma_min_pos_dur_nonneg(infos[e2 - 1], 0);
        }
    }
}

proof fn lemma_min_pos_dur_nonneg(infos: Seq<(i8, u8, bool, u8)>, i: int)
    ensures
        min_pos_dur(infos, i) >= 0,
    decreases infos.len() - i,
{
    if i < 0 || i >= infos.len() {
    } else {
        lemma_min_pos_dur_nonneg(infos, i + 1);
    }
}

/// The scan never changes a measure once it is closed.
proof fn lemma_scan_keeps_done(score: InterpretedScore, links: Seq<Link>, st: MeasureScan)
    ensures
        st.done.len() <= measure_scan(score, links, st).done.len(),
        forall|j: int| 0 <= j < st.done.len() ==> #[trigger] measure_scan(score, links, st).done[j] == st.done[j],
    decreases links.len(),
{
    if links.len() > 0 {
        let st2 = measure_step(score, st, score.objects@[links[0] as int]);
        lemma_scan_keeps_done(score, links.drop_first(), st2);
        assert(st.done.len() <= st2.done.len());
        assert(forall|j: int| 0 <= j < st.done.len() ==> #[trigger] st2.done[j] == st.done[j]);
    }
}

fn note_infos(score: &InterpretedScore, sub: Link) -> (r: Vec<(i8, u8, bool, u8)>)
    ensures
        r@ == note_infos_of(*score, sub),
{
    let mut r: Vec<(i8, u8, bool, u8)> = Vec::new();
    if let Some(notes) = score.notes.get(&sub) {
        let mut i: usize = 0;
        while i < notes.len()
            invariant
                i <= notes@.len(),
                score.notes@.contains_key(sub),
                score.notes@[sub] == *notes,
                r@ =~= notes@.map_values(|n: ANote| (n.header.sub_type, n.ndots, n.rest, n.accident)).take(i as int),
            decreases notes@.len() - i,
        {
            let n = &notes[i];
            r.push((n.header.sub_type, n.ndots, n.rest, n.accident));
            i = i + 1;
        }
        assert(notes@.map_values(|n: ANote| (n.header.sub_type, n.ndots, n.rest, n.accident)).take(notes@.len() as int)
            =~= notes@.map_values(|n: ANote| (n.header.sub_type, n.ndots, n.rest, n.accident)));
    }
    r
}

/// The estimated duration of a Sync (see `est_dur`).
fn sync_est_dur(infos: &Vec<(i8, u8, bool, u8)>) -> (r: i32)
    requires
        forall|j: int| 0 <= j < infos@.len() && #[trigger] infos@[j].0 > 0 && infos@[j].1 > 0 ==> infos@[j].0 < 127,
    ensures
        r == est_dur(infos@),
        0 < r <= 42240,
{
    let mut best: i32 = 0;
    let mut i: usize = infos.len();
    while i > 0
        invariant
            i <= infos@.len(),
            best == min_pos_dur(infos@, i as int),
            0 <= best <= 42240,
            forall|j: int| 0 <= j < infos@.len() && #[trigger] infos@[j].0 > 0 && infos@[j].1 > 0 ==> infos@[j].0 < 127,
        decreases i,
    {
        i = i - 1;
        let (dur, dots, _, _) = infos[i];
        if dur > 0 {
            assert(infos@[i as int].0 > 0);
            let d = code_to_l_dur(dur, dots);
            proof { lemma_l_dur_bounded(dur as int, dots as int); }
            if d > 0 && (best == 0 || d < best) {
                best = d;
            }
        }
    }
    if best == 0 { 480 } else { best }
}

/// `m` closed at `last`, with estimated times where it needs them.
fn close_measure(m: MeasureInfo, last: Link) -> (r: MeasureInfo)
    requires
        est_times_fit(MeasureView { last_link: last, ..m@ }),
    ensures
        r@ == with_est_times(MeasureView { last_link: last, ..m@ }),
{
    let mut m = m;
    m.last_link = last;
    let mut all_zero = m.sync_times.len() > 0;
    let mut j: usize = 0;
    while j < m.sync_times.len()
        invariant
            j <= m.sync_times@.len(),
            all_zero == (m.sync_times@.len() > 0 && forall|k: int| 0 <= k < j ==> #[trigger] m.sync_times@[k] == 0),
        decreases m.sync_times@.len() - j,
    {
        if m.sync_times[j] != 0 {
            all_zero = false;
        }
        j = j + 1;
    }
    if all_zero {
        let ghost mv = m@;
        assert(needs_times(mv));
        let n = m.sync_note_infos.len();
        let mut times: Vec<i32> = Vec::new();
        let mut t: i32 = 0;
        let mut e: usize = 0;
        while e < n
            invariant
                n == mv.sync_note_infos.len(),
                m@ == mv,
                est_times_fit(mv),
                needs_times(mv),
                e <= n,
                t == est_start(mv.sync_note_infos, e as int),
                times@ =~= Seq::new(e as nat, |k: int| est_start(mv.sync_note_infos, k) as i32),
            decreases n - e,
        {
            times.push(t);
            let infos = &m.sync_note_infos[e];
            assert(infos@ == mv.sync_note_infos[e as int]);
            let d = sync_est_dur(infos);
            proof { lemma_est_start_monotone(mv.sync_note_infos, e as int + 1, n as int); }
            t = t + d;
            e = e + 1;
        }
        m.sync_times = times;
    }
    m
}

/// Estimated Sync times strictly increase: each Sync is taken to last a
/// positive time.
pub proof fn lemma_estimated_times_increase(infos: Seq<Seq<(i8, u8, bool, u8)>>, e1: int, e2: int)
    requires
        0 <= e1 < e2 <= infos.len(),
    ensures
        est_start(infos, e1) < est_start(infos, e2),
    decreases e2 - e1,
{
    lemma_min_pos_dur_nonneg(infos[e2 - 1], 0);
    assert(est_dur(infos[e2 - 1]) > 0);
    if e1 < e2 - 1 {
        lemma_estimated_times_increase(infos, e1, e2 - 1);
    }
}

/// An optional measure, as mathematical values.
pub open spec fn opt_measure_view(o: Option<MeasureInfo>) -> Option<MeasureView> {
    match o {
        Some(m) => Some(m@),
        None => None,
    }
}

/// The measures of the score in walk order (`spec_measures`): each Measure
/// object with the objects up to the next Measure or the Tail, its Syncs,
/// their times and their notes; where a measure's Sync times are all 0
/// they are estimated from the notes' durations (`est_start`).
pub fn collect_measures(score: &InterpretedScore) -> (r: Vec<MeasureInfo>)
    requires
        forall|j: int| 0 <= j < raw_measures(*score).len() ==> est_times_fit(#[trigger] raw_measures(*score)[j]),
    ensures
        r@.map_values(|m: MeasureInfo| m@) == spec_measures(*score),
{
    let order = score.walk();
    let ghost init = MeasureScan { done: Seq::empty(), current: None, last: NILINK };
    let ghost mut done: Seq<MeasureView> = Seq::empty();
    let mut measures: Vec<MeasureInfo> = Vec::new();
    let mut current: Option<MeasureInfo> = None;
    let mut last: Link = NILINK;
    assert(order@.skip(0) =~= order@);
    let mut i: usize = 0;
    while i < order.len()
        invariant
            order@ == score.walk_order(),
            forall|j: int| 0 <= j < order@.len() ==> (#[trigger] order@[j] as int) < score.objects@.len(),
            i <= order@.len(),
            init == (MeasureScan { done: Seq::empty(), current: None, last: NILINK }),
            measure_scan(*score, order@, init)
                == measure_scan(*score, order@.skip(i as int), MeasureScan { done, current: opt_measure_view(current), last }),
            measures@.map_values(|m: MeasureInfo| m@) =~= done.map_values(|m: MeasureView| with_est_times(m)),
            forall|j: int| 0 <= j < raw_measures(*score).len() ==> est_times_fit(#[trigger] raw_measures(*score)[j]),
        decreases order@.len() - i,
    {
        let l = order[i];
        let obj = &score.objects[l as usize];
        let ghost st = MeasureScan { done, current: opt_measure_view(current), last };
        let ghost st2 = measure_step(*score, st, score.objects@[l as int]);
        proof {
            assert(order@.skip(i as int)[0] == l);
            assert(order@.skip(i as int).drop_first() =~= order@.skip(i as int + 1));
            lemma_scan_keeps_done(*score, order@.skip(i as int + 1), st2);
        }
        match &obj.data {
            ObjData::Measure(_) => {
                if let Some(m) = current.take() {
                    assert(raw_measures(*score)[done.len() as int] == close_current(st).last());
                    let ghost ms0 = measures@;
                    let closed = close_measure(m, last);
                    measures.push(closed);
                    assert(measures@.map_values(|m: MeasureInfo| m@)
                        =~= ms0.map_values(|m: MeasureInfo| m@).push(closed@));
                    assert(st2.done.map_values(|m: MeasureView| with_est_times(m))
                        =~= done.map_values(|m: MeasureView| with_est_times(m)).push(with_est_times(close_current(st).last())));
                }
                last = obj.index;
                current = Some(MeasureInfo {
                    obj_link: obj.index,
                    last_link: obj.index,
                    sync_links: Vec::new(),
                    sync_times: Vec::new(),
                    sync_note_infos: Vec::new(),
                });
            },
            ObjData::Tail(_) => {
                if let Some(m) = current.take() {
                    assert(raw_measures(*score)[done.len() as int] == close_current(st).last());
                    let ghost ms0 = measures@;
                    let closed = close_measure(m, last);
                    measures.push(closed);
                    assert(measures@.map_values(|m: MeasureInfo| m@)
                        =~= ms0.map_values(|m: MeasureInfo| m@).push(closed@));
                    assert(st2.done.map_values(|m: MeasureView| with_est_times(m))
                        =~= done.map_values(|m: MeasureView| with_est_times(m)).push(with_est_times(close_current(st).last())));
                }
            },
            _ => {
                if current.is_some() {
                    last = obj.index;
                    if let ObjData::Sync(sy) = &obj.data {
                        if let Some(mut m) = current.take() {
                            let ghost m0 = m@;
                            let ghost nv0 = m.sync_note_infos@;
                            m.sync_links.push(obj.index);
                            m.sync_times.push(sy.time_stamp as i32);
                            let infos = note_infos(score, obj.header.first_sub_obj);
                            m.sync_note_infos.push(infos);
                            assert(m.sync_note_infos@.map_values(|v: Vec<(i8, u8, bool, u8)>| v@)
                                =~= nv0.map_values(|v: Vec<(i8, u8, bool, u8)>| v@).push(note_infos_of(*score, obj.header.first_sub_obj)));
                            assert(m@ =~= MeasureView {
                                sync_links: m0.sync_links.push(obj.index),
                                sync_times: m0.sync_times.push(sy.time_stamp as i32),
                                sync_note_infos: m0.sync_note_infos.push(note_infos_of(*score, obj.header.first_sub_obj)),
                                ..m0
                            });
                            current = Some(m);
                        }
                    }
                }
            },
        }
        proof {
            done = st2.done;
            assert(opt_measure_view(current) == st2.current);
            assert(last == st2.last);
        }
        i = i + 1;
    }
    assert(measures@.map_values(|m: MeasureInfo| m@) =~= spec_measures(*score));
    measures
}

/// The end of a system that starts at measure `start` and may run up to
/// `stop`: measures are added while the running width `total` (from `mi`
/// on) stays within `avail`; the first measure is always taken.
pub open spec fn fit_end(w: Seq<Ddist>, start: int, stop: int, avail: int, mi: int, total: int) -> int
    decreases stop - mi,
{
    if mi >= stop || mi < 0 || mi >= w.len() {
        mi
    } else if total + w[mi] > avail && mi > start {
        mi
    } else {
        fit_end(w, start, stop, avail, mi + 1, total + w[mi])
    }
}

/// The most measures a system may hold: `max_measures`, or all when it is 0.
pub open spec fn per_system(max_measures: usize, n: int) -> int {
    if max_measures > 0 { max_measures as int } else { n }
}

/// The systems from measure `start` on: each takes measures greedily
/// (`fit_end`) within its available width (`avail_first` for the first
/// system, `avail_rest` for the others) and at most `per_system` of them.
pub open spec fn ranges_from(w: Seq<Ddist>, max_measures: usize, avail_first: int, avail_rest: int, start: int, first: bool) -> Seq<(usize, usize)>
    decreases w.len() - start,
{
    if start < 0 || start >= w.len() {
        Seq::empty()
    } else {
        let per = per_system(max_measures, w.len() as int);
        let stop = if start + per < w.len() { start + per } else { w.len() as int };
        let avail = if first { avail_first } else { avail_rest };
        let end = fit_end(w, start, stop, avail, start, 0);
        if end <= start || end > w.len() {
            seq![(start as usize, end as usize)]
        } else {
            seq![(start as usize, end as usize)] + ranges_from(w, max_measures, avail_first, avail_rest, end, false)
        }
    }
}

proof fn lemma_fit_end_bounds(w: Seq<Ddist>, start: int, stop: int, avail: int, mi: int, total: int)
    requires
        0 <= start <= mi,
        stop <= w.len(),
    ensures
        mi >= stop ==> fit_end(w, start, stop, avail, mi, total) == mi,
        mi < stop && mi == start ==> start < fit_end(w, start, stop, avail, mi, total) <= stop,
        mi < stop && mi > start ==> mi <= fit_end(w, start, stop, avail, mi, total) <= stop,
    decreases stop - mi,
{
    if mi >= stop {
    } else if total + w[mi] > avail && mi > start {
    } else {
        lemma_fit_end_bounds(w, start, stop, avail, mi + 1, total + w[mi]);
    }
}

/// Group the measures, of widths `measure_widths` (DDIST), into systems:
/// the first system has `available_width` for its measures, the others
/// `continuation_available`; each system takes measures while they fit
/// (at least one) and at most `config.max_measures` (all when 0). The
/// result is each system's range of measures, `(start, end)`.
pub fn group_measures_into_systems(
    measure_widths: &Vec<Ddist>,
    config: &LayoutConfig,
    available_width: Ddist,
    continuation_available: Ddist,
) -> (r: Vec<(usize, usize)>)
    requires
        measure_widths@.len() < 0x1_0000_0000,
        2 * measure_widths@.len() <= usize::MAX,
        config.max_measures as int + measure_widths@.len() <= usize::MAX,
    ensures
        r@ == ranges_from(measure_widths@, config.max_measures, available_width as int, continuation_available as int, 0, true),
{
    let n = measure_widths.len();
    let mut ranges: Vec<(usize, usize)> = Vec::new();
    if n == 0 {
        return ranges;
    }
    let ghost w = measure_widths@;
    let mut start: usize = 0;
    while start < n
        invariant
            n == w.len(),
            w == measure_widths@,
            w.len() < 0x1_0000_0000,
            2 * w.len() <= usize::MAX,
            config.max_measures as int + w.len() <= usize::MAX,
            start <= n,
            ranges@.len() > 0 || start == 0,
            ranges@ + ranges_from(w, config.max_measures, available_width as int, continuation_available as int, start as int, ranges@.len() == 0)
                == ranges_from(w, config.max_measures, available_width as int, continuation_available as int, 0, true),
        decreases n - start,
    {
        let sys_avail: Ddist = if ranges.len() == 0 { available_width } else { continuation_available };
        let max_per_sys: usize = if config.max_measures > 0 { config.max_measures } else { n };
        let stop: usize = if start + max_per_sys < n { start + max_per_sys } else { n };
        let mut end: usize = start + 1;
        let mut total: i64 = 0;
        let mut mi: usize = start;
        proof { lemma_fit_end_bounds(w, start as int, stop as int, sys_avail as int, start as int, 0); }
        while mi < stop
            invariant
                start < stop <= n,
                n == w.len(),
                w == measure_widths@,
                w.len() < 0x1_0000_0000,
                start <= mi <= stop,
                end == if mi == start { start + 1 } else { mi as int },
                -32768 * (mi - start) <= total <= 32767 * (mi - start),
                fit_end(w, start as int, stop as int, sys_avail as int, start as int, 0)
                    == fit_end(w, start as int, stop as int, sys_avail as int, mi as int, total as int),
            ensures
                end == fit_end(w, start as int, stop as int, sys_avail as int, start as int, 0),
            decreases stop - mi,
        {
            let wd = measure_widths[mi] as i64;
            if total + wd > sys_avail as i64 && mi > start {
                break;
            }
            total = total + wd;
            end = mi + 1;
            mi = mi + 1;
        }
        proof {
            lemma_fit_end_bounds(w, start as int, stop as int, sys_avail as int, start as int, 0);
        }
        let ghost first = ranges@.len() == 0;
        ranges.push((start, end));
        proof {
            let rest = ranges_from(w, config.max_measures, available_width as int, continuation_available as int, end as int, false);
            assert(ranges_from(w, config.max_measures, available_width as int, continuation_available as int, start as int, first)
                == seq![(start, end)] + rest);
        }
        start = end;
    }
    assert(ranges_from(w, config.max_measures, available_width as int, continuation_available as int, n as int, false) =~= Seq::<(usize, usize)>::empty());
    ranges
}

/// The systems from `start` on cover the measures from `start` to the end
/// in order, each with at least one and at most `per_system` measures.
proof fn lemma_ranges_from_partition(w: Seq<Ddist>, max_measures: usize, avail_first: int, avail_rest: int, start: int, first: bool)
    requires
        0 <= start < w.len(),
        w.len() <= usize::MAX,
    ensures
        ({
            let r = ranges_from(w, max_measures, avail_first, avail_rest, start, first);
            &&& r.len() > 0
            &&& r[0].0 == start
            &&& r[r.len() - 1].1 == w.len()
            &&& forall|i: int| 0 <= i < r.len() ==> (#[trigger] r[i]).0 < r[i].1
            &&& forall|i: int| 0 <= i < r.len() && max_measures > 0 ==> (#[trigger] r[i]).1 - r[i].0 <= max_measures
            &&& forall|i: int| 0 <= i < r.len() - 1 ==> (#[trigger] r[i]).1 == r[i + 1].0
        }),
    decreases w.len() - start,
{
    let per = per_system(max_measures, w.len() as int);
    let stop = if start + per < w.len() { start + per } else { w.len() as int };
    let avail = if first { avail_first } else { avail_rest };
    lemma_fit_end_bounds(w, start, stop, avail, start, 0);
    let end = fit_end(w, start, stop, avail, start, 0);
    let r = ranges_from(w, max_measures, avail_first, avail_rest, start, first);
    if end < w.len() {
        lemma_ranges_from_partition(w, max_measures, avail_first, avail_rest, end, false);
        let rest = ranges_from(w, max_measures, avail_first, avail_rest, end, false);
        assert(r == seq![(start as usize, end as usize)] + rest);
        assert forall|i: int| 0 <= i < r.len() - 1 implies (#[trigger] r[i]).1 == r[i + 1].0 by {
            if i > 0 {
                assert(r[i] == rest[i - 1]);
                assert(r[i + 1] == rest[i]);
            }
        }
        assert forall|i: int| 0 <= i < r.len() implies (#[trigger] r[i]).0 < r[i].1 by {
            if i > 0 {
                assert(r[i] == rest[i - 1]);
            }
        }
        assert forall|i: int| 0 <= i < r.len() && max_measures > 0 implies (#[trigger] r[i]).1 - r[i].0 <= max_measures by {
            if i > 0 {
                assert(r[i] == rest[i - 1]);
            }
        }
    } else {
        assert(end == w.len());
        assert(r == seq![(start as usize, end as usize)] + ranges_from(w, max_measures, avail_first, avail_rest, end, false));
        assert(ranges_from(w, max_measures, avail_first, avail_rest, end, false) =~= Seq::<(usize, usize)>::empty());
        assert(r =~= seq![(start as usize, end as usize)]);
    }
}

/// The systems partition the measures: the first system starts at the
/// first measure, each starts where the previous one ended, each holds at
/// least one measure and at most `max_measures` (when it is not 0), and the
/// last ends after the last measure.
pub proof fn lemma_systems_partition_measures(w: Seq<Ddist>, max_measures: usize, avail_first: int, avail_rest: int)
    requires
        0 < w.len() <= usize::MAX,
    ensures
        ({
            let r = ranges_from(w, max_measures, avail_first, avail_rest, 0, true);
            &&& r.len() > 0
            &&& r[0].0 == 0
            &&& r[r.len() - 1].1 == w.len()
            &&& forall|i: int| 0 <= i < r.len() ==> (#[trigger] r[i]).0 < r[i].1
            &&& forall|i: int| 0 <= i < r.len() && max_measures > 0 ==> (#[trigger] r[i]).1 - r[i].0 <= max_measures
            &&& forall|i: int| 0 <= i < r.len() - 1 ==> (#[trigger] r[i]).1 == r[i + 1].0
        }),
{
    lemma_ranges_from_partition(w, max_measures, avail_first, avail_rest, 0, true);
}

/// The total width of measures `a` to `b - 1`.
pub open spec fn width_sum(w: Seq<Ddist>, a: int, b: int) -> int
    decreases b - a,
{
    if b <= a { 0 } else { width_sum(w, a, b - 1) + w[b - 1] as int }
}

/// The width available to system `i` of the systems from a starting one:
/// `avail_first` for the very first system, `avail_rest` for the others.
pub open spec fn system_avail(avail_first: int, avail_rest: int, first: bool, i: int) -> int {
    if first && i == 0 { avail_first } else { avail_rest }
}

proof fn lemma_fit_end_width(w: Seq<Ddist>, start: int, stop: int, avail: int, mi: int, total: int)
    requires
        0 <= start <= mi <= stop <= w.len(),
        total == width_sum(w, start, mi),
        mi >= start + 2 ==> total <= avail,
    ensures
        ({
            let e = fit_end(w, start, stop, avail, mi, total);
            &&& e >= start + 2 ==> width_sum(w, start, e) <= avail
            &&& start < e < stop ==> width_sum(w, start, e + 1) > avail
        }),
    decreases stop - mi,
{
    if mi >= stop {
    } else if total + w[mi] > avail && mi > start {
    } else {
        lemma_fit_end_width(w, start, stop, avail, mi + 1, total + w[mi]);
    }
}

proof fn lemma_ranges_from_width(w: Seq<Ddist>, max_measures: usize, avail_first: int, avail_rest: int, start: int, first: bool)
    requires
        0 <= start < w.len(),
        w.len() <= usize::MAX,
    ensures
        ({
            let r = ranges_from(w, max_measures, avail_first, avail_rest, start, first);
            &&& forall|i: int| 0 <= i < r.len() && (#[trigger] r[i]).1 - r[i].0 >= 2
                ==> width_sum(w, r[i].0 as int, r[i].1 as int) <= system_avail(avail_first, avail_rest, first, i)
            &&& forall|i: int| 0 <= i < r.len() && (#[trigger] r[i]).1 < w.len()
                && (max_measures == 0 || r[i].1 - r[i].0 < max_measures)
                ==> width_sum(w, r[i].0 as int, r[i].1 + 1) > system_avail(avail_first, avail_rest, first, i)
        }),
    decreases w.len() - start,
{
    let per = per_system(max_measures, w.len() as int);
    let stop = if start + per < w.len() { start + per } else { w.len() as int };
    let avail = if first { avail_first } else { avail_rest };
    lemma_fit_end_bounds(w, start, stop, avail, start, 0);
    lemma_fit_end_width(w, start, stop, avail, start, 0);
    let end = fit_end(w, start, stop, avail, start, 0);
    let r = ranges_from(w, max_measures, avail_first, avail_rest, start, first);
    let head = seq![(start as usize, end as usize)];
    assert(head[0].0 as int == start && head[0].1 as int == end);
    if end < w.len() {
        lemma_ranges_from_width(w, max_measures, avail_first, avail_rest, end, false);
        let rest = ranges_from(w, max_measures, avail_first, avail_rest, end, false);
        assert(r == head + rest);
        assert forall|i: int| 0 <= i < r.len() && (#[trigger] r[i]).1 - r[i].0 >= 2
            implies width_sum(w, r[i].0 as int, r[i].1 as int) <= system_avail(avail_first, avail_rest, first, i) by {
            if i > 0 {
                assert(r[i] == rest[i - 1]);
            }
        }
        assert forall|i: int| 0 <= i < r.len() && (#[trigger] r[i]).1 < w.len()
            && (max_measures == 0 || r[i].1 - r[i].0 < max_measures)
            implies width_sum(w, r[i].0 as int, r[i].1 + 1) > system_avail(avail_first, avail_rest, first, i) by {
            if i > 0 {
                assert(r[i] == rest[i - 1]);
            }
        }
    } else {
        assert(r == head + ranges_from(w, max_measures, avail_first, avail_rest, end, false));
        assert(ranges_from(w, max_measures, avail_first, avail_rest, end, false) =~= Seq::<(usize, usize)>::empty());
        assert(r =~= head);
    }
}

/// Every system fits its width: the measures of a system that holds more
/// than one have a total width within the system's room (`avail_first` for
/// the first system, `avail_rest` for the others); and a system is only
/// closed early when the next measure would not fit, so a system that ends
/// before the last measure, with fewer than `max_measures` (or with no
/// limit when it is 0), would overflow its room with the next measure.
pub proof fn lemma_systems_fit_width(w: Seq<Ddist>, max_measures: usize, avail_first: int, avail_rest: int)
    requires
        0 < w.len() <= usize::MAX,
    ensures
        ({
            let r = ranges_from(w, max_measures, avail_first, avail_rest, 0, true);
            &&& forall|i: int| 0 <= i < r.len() && (#[trigger] r[i]).1 - r[i].0 >= 2
                ==> width_sum(w, r[i].0 as int, r[i].1 as int) <= if i == 0 { avail_first } else { avail_rest }
            &&& forall|i: int| 0 <= i < r.len() && (#[trigger] r[i]).1 < w.len()
                && (max_measures == 0 || r[i].1 - r[i].0 < max_measures)
                ==> width_sum(w, r[i].0 as int, r[i].1 + 1) > if i == 0 { avail_first } else { avail_rest }
        }),
{
    lemma_ranges_from_width(w, max_measures, avail_first, avail_rest, 0, true);
}

/// `objs` with the object at `at` linking right to `to`.
pub open spec fn with_right(objs: Seq<InterpretedObject>, at: Link, to: Link) -> Seq<InterpretedObject> {
    objs.update(at as int, InterpretedObject { header: ObjectHeader { right: to, ..objs[at as int].header }, ..objs[at as int] })
}

/// `objs` with the object at `at` linking left to `to`.
pub open spec fn with_left(objs: Seq<InterpretedObject>, at: Link, to: Link) -> Seq<InterpretedObject> {
    objs.update(at as int, InterpretedObject { header: ObjectHeader { left: to, ..objs[at as int].header }, ..objs[at as int] })
}

fn set_right(objs: &mut Vec<InterpretedObject>, at: Link, to: Link)
    requires
        (at as int) < old(objs)@.len(),
    ensures
        final(objs)@ == with_right(old(objs)@, at, to),
{
    let mut o = objs[at as usize];
    o.header.right = to;
    objs.set(at as usize, o);
}

fn set_left(objs: &mut Vec<InterpretedObject>, at: Link, to: Link)
    requires
        (at as int) < old(objs)@.len(),
    ensures
        final(objs)@ == with_left(old(objs)@, at, to),
{
    let mut o = objs[at as usize];
    o.header.left = to;
    objs.set(at as usize, o);
}

/// How far the subobject keys advance per new system: a list of staves, of
/// clefs and of key signatures, and one connect when the preamble has one.
pub open spec fn sub_step(p: PreambleInfo) -> int {
    3 * p.num_staves as int + if p.has_connect { 1int } else { 0int }
}

/// The objects, the next free subobject key and the System links while
/// systems are inserted.
pub ghost struct BreakState {
    pub objs: Seq<InterpretedObject>,
    pub sub: Link,
    pub sys_links: Seq<Link>,
}

/// Insert system `k`: after the last object of system `k - 1` (and, at the
/// top of a new page, after a new Page object linked from it) come the
/// objects of a new system (`new_system_objects`); they link to that object
/// on the left and to the first Measure of system `k` on the right.
pub open spec fn break_step(
    st: BreakState,
    c: LayoutConfig,
    p: PreambleInfo,
    measures: Seq<MeasureView>,
    ranges: Seq<(usize, usize)>,
    spp: usize,
    k: int,
) -> BreakState {
    let sys_in_page = k % (spp as int);
    let page_idx = k / (spp as int);
    let prev_last = measures[ranges[k - 1].1 - 1].last_link;
    let new_page = sys_in_page == 0 && page_idx > 0;
    let page_link = st.objs.len() as Link;
    let objs1 = if new_page {
        with_right(objects_with_page(st.objs, page_idx as usize, prev_last, p.page_link), prev_last, page_link)
    } else {
        st.objs
    };
    let splice = if new_page { page_link } else { prev_last };
    let page_l = if new_page { page_link } else { p.page_link };
    let sys_link = objs1.len() as Link;
    let ks_link = (objs1.len() + if p.has_connect { 4int } else { 3int }) as Link;
    let objs2 = new_system_objects(objs1, c, p, st.sub, k as usize, sys_in_page as usize, page_l);
    let first_meas = measures[ranges[k].0 as int].obj_link;
    let objs3 = with_left(with_right(with_left(with_right(objs2, splice, sys_link), sys_link, splice), ks_link, first_meas), first_meas, ks_link);
    BreakState { objs: objs3, sub: (st.sub + sub_step(p)) as Link, sys_links: st.sys_links.push(sys_link) }
}

/// The state after inserting systems `1..k`.
pub open spec fn breaks_to(
    st0: BreakState,
    c: LayoutConfig,
    p: PreambleInfo,
    measures: Seq<MeasureView>,
    ranges: Seq<(usize, usize)>,
    spp: usize,
    k: int,
) -> BreakState
    decreases k,
{
    if k <= 1 {
        st0
    } else {
        break_step(breaks_to(st0, c, p, measures, ranges, spp, k - 1), c, p, measures, ranges, spp, k - 1)
    }
}

/// The System objects at `links[i..]` chained: each links to the previous
/// and next System of `links` and is numbered by its position (from 1);
/// links that are no System are skipped.
pub open spec fn chain_systems(objs: Seq<InterpretedObject>, links: Seq<Link>, i: int) -> Seq<InterpretedObject>
    decreases links.len() - i,
{
    if i < 0 || i >= links.len() {
        objs
    } else {
        let l = links[i];
        let o = objs[l as int];
        let objs2 = match o.data {
            ObjData::System(sys) => objs.update(l as int, InterpretedObject {
                data: ObjData::System(System {
                    l_system: if i > 0 { links[i - 1] } else { NILINK },
                    r_system: if i + 1 < links.len() { links[i + 1] } else { NILINK },
                    system_num: (i + 1) as i16,
                    ..sys
                }),
                ..o
            }),
            _ => objs,
        };
        chain_systems(objs2, links, i + 1)
    }
}

/// The objects after inserting every system break: the systems inserted
/// (`breaks_to`), the last object of the last system linked with the Tail,
/// and the System objects chained (`chain_systems`).
pub open spec fn spec_system_breaks(
    objs: Seq<InterpretedObject>,
    sub0: Link,
    c: LayoutConfig,
    p: PreambleInfo,
    measures: Seq<MeasureView>,
    ranges: Seq<(usize, usize)>,
    spp: usize,
) -> Seq<InterpretedObject> {
    let st = breaks_to(BreakState { objs, sub: sub0, sys_links: seq![p.system_link] }, c, p, measures, ranges, spp, ranges.len() as int);
    let last_obj = measures[ranges[ranges.len() - 1].1 - 1].last_link;
    chain_systems(with_left(with_right(st.objs, last_obj, p.tail_link), p.tail_link, last_obj), st.sys_links, 0)
}

/// Every argument of `insert_system_breaks` lies in range and all its
/// arithmetic fits: system ranges within the measures, measure and
/// preamble links within the objects, and each new system fitting
/// (`new_system_fits`) with room for six objects per system and
/// `sub_step` keys per system past the highest subobject key plus 100.
pub open spec fn system_breaks_fit(
    score: InterpretedScore,
    c: LayoutConfig,
    p: PreambleInfo,
    measures: Seq<MeasureView>,
    ranges: Seq<(usize, usize)>,
    spp: usize,
) -> bool {
    let l0 = score.objects@.len() as int;
    let kk = ranges.len() as int;
    let sub_max = sub_link_max(score) + 100 + kk * sub_step(p);
    &&& spp > 0
    &&& forall|k: int| 0 <= k < kk ==> (#[trigger] ranges[k]).0 < measures.len() && 1 <= ranges[k].1 <= measures.len()
    &&& forall|j: int| 0 <= j < measures.len() ==> (#[trigger] measures[j]).obj_link < l0 && measures[j].last_link < l0
    &&& p.page_link < l0
    &&& p.tail_link < l0
    &&& p.system_link < l0
    &&& all_sub_ends_within(score, u16::MAX as int)
    &&& sub_max < 0xFFFF
    &&& forall|k: int| 1 <= k < kk ==> new_system_fits(l0 + 6 * kk, c, p, sub_max as Link, #[trigger] (k % (spp as int)) as usize)
}

/// `m2` is `m1` with, for each system `k` in `1..kk`, the key `key(k)`
/// mapped to a list whose view is `val(key(k))`.
pub open spec fn maps_extended<T>(
    m2: Map<Link, Vec<T>>,
    m1: Map<Link, Vec<T>>,
    kk: int,
    key: spec_fn(int) -> Link,
    val: spec_fn(Link) -> Seq<T>,
) -> bool {
    &&& forall|x: Link| #[trigger] m2.contains_key(x) <==> (m1.contains_key(x) || exists|k: int| 1 <= k < kk && x == #[trigger] key(k))
    &&& forall|x: Link| #[trigger] m1.contains_key(x) ==> m2[x] == m1[x]
    &&& forall|k: int| 1 <= k < kk ==> m2[#[trigger] key(k)]@ == val(key(k))
}

proof fn lemma_maps_extended_step<T>(
    m0: Map<Link, Vec<T>>,
    m1: Map<Link, Vec<T>>,
    m2: Map<Link, Vec<T>>,
    k: int,
    key: spec_fn(int) -> Link,
    val: spec_fn(Link) -> Seq<T>,
)
    requires
        k >= 1,
        maps_extended(m1, m0, k, key, val),
        map_inserted(m2, m1, key(k), val(key(k))),
        !m0.contains_key(key(k)),
    ensures
        maps_extended(m2, m0, k + 1, key, val),
{
    assert forall|x: Link| #[trigger] m2.contains_key(x) <==> (m0.contains_key(x) || exists|j: int| 1 <= j < k + 1 && x == #[trigger] key(j)) by {
        if m2.contains_key(x) && !m0.contains_key(x) {
            if x == key(k) {
                assert(1 <= k < k + 1 && x == key(k));
            } else {
                assert(m1.contains_key(x));
                let j = choose|j: int| 1 <= j < k && x == #[trigger] key(j);
                assert(1 <= j < k + 1 && x == key(j));
            }
        }
        if exists|j: int| 1 <= j < k + 1 && x == #[trigger] key(j) {
            let j = choose|j: int| 1 <= j < k + 1 && x == #[trigger] key(j);
            if j < k {
                assert(m1.contains_key(x));
            }
        }
    }
    assert forall|x: Link| #[trigger] m0.contains_key(x) implies m2[x] == m0[x] by {
        assert(m1.contains_key(x));
        assert(x != key(k));
        assert(m2[x] == m1[x]);
    }
    assert forall|j: int| 1 <= j < k + 1 implies m2[#[trigger] key(j)]@ == val(key(j)) by {
        if key(j) == key(k) {
        } else {
            assert(m1.contains_key(key(j)));
        }
    }
}

/// The key of the subobject list at offset `off` of system `k`'s lists,
/// the first system's lists starting at `sub0`.
pub open spec fn break_key(sub0: int, p: PreambleInfo, off: int) -> spec_fn(int) -> Link {
    |k: int| (sub0 + (k - 1) * sub_step(p) + off) as Link
}

/// The staff list of a new system, by its key.
pub open spec fn staff_lists(c: LayoutConfig, p: PreambleInfo) -> spec_fn(Link) -> Seq<AStaff> {
    |x: Link| new_staff_list(c, p, x)
}

/// The clef list of a new system, by its key.
pub open spec fn clef_lists(p: PreambleInfo) -> spec_fn(Link) -> Seq<AClef> {
    |x: Link| new_clef_list(p, x)
}

/// The key signature list of a new system, by its key.
pub open spec fn keysig_lists(p: PreambleInfo) -> spec_fn(Link) -> Seq<AKeySig> {
    |x: Link| new_keysig_list(p, x)
}

/// The connect list of a new system, whatever its key.
pub open spec fn connect_lists(p: PreambleInfo) -> spec_fn(Link) -> Seq<AConnect> {
    |x: Link| seq![new_connect(p)]
}

/// The subobject tables after system `k`'s lists were added.
pub open spec fn break_maps_at(s: InterpretedScore, s0: InterpretedScore, c: LayoutConfig, p: PreambleInfo, k: int) -> bool {
    let sub0 = sub_link_max(s0) + 100;
    let ns = p.num_staves as int;
    let hc = if p.has_connect { 1int } else { 0int };
    &&& maps_extended(s.staffs@, s0.staffs@, k, break_key(sub0, p, 0), staff_lists(c, p))
    &&& maps_extended(s.clefs@, s0.clefs@, k, break_key(sub0, p, ns + hc), clef_lists(p))
    &&& maps_extended(s.keysigs@, s0.keysigs@, k, break_key(sub0, p, 2 * ns + hc), keysig_lists(p))
    &&& p.has_connect ==> maps_extended(s.connects@, s0.connects@, k, break_key(sub0, p, ns), connect_lists(p))
    &&& !p.has_connect ==> s.connects@ == s0.connects@
}

proof fn lemma_break_maps_step(
    s0: InterpretedScore,
    pre: InterpretedScore,
    post: InterpretedScore,
    c: LayoutConfig,
    p: PreambleInfo,
    sub: Link,
    k: int,
)
    requires
        k >= 1,
        break_maps_at(pre, s0, c, p, k),
        all_sub_ends_within(s0, sub_link_max(s0)),
        sub == sub_link_max(s0) + 100 + (k - 1) * sub_step(p),
        sub + sub_step(p) < 0x10000,
        ({
            let ns = p.num_staves as int;
            let clef_sub = if p.has_connect { sub + ns + 1 } else { sub + ns };
            &&& map_inserted(post.staffs@, pre.staffs@, sub, new_staff_list(c, p, sub))
            &&& map_inserted(post.clefs@, pre.clefs@, clef_sub as Link, new_clef_list(p, clef_sub as Link))
            &&& map_inserted(post.keysigs@, pre.keysigs@, (clef_sub + ns) as Link, new_keysig_list(p, (clef_sub + ns) as Link))
            &&& p.has_connect ==> map_inserted(post.connects@, pre.connects@, (sub + ns) as Link, seq![new_connect(p)])
            &&& !p.has_connect ==> post.connects@ == pre.connects@
        }),
    ensures
        break_maps_at(post, s0, c, p, k + 1),
{
    let sub0 = sub_link_max(s0) + 100;
    let ns = p.num_staves as int;
    let hc = if p.has_connect { 1int } else { 0int };
    assert(sub_step(p) >= 0);
    let ks = break_key(sub0, p, 0);
    let kc = break_key(sub0, p, ns + hc);
    let kk = break_key(sub0, p, 2 * ns + hc);
    let kn = break_key(sub0, p, ns);
    assert(ks(k) == sub);
    assert(kc(k) == (sub + ns + hc) as Link);
    assert(kk(k) == (sub + 2 * ns + hc) as Link);
    assert(kn(k) == (sub + ns) as Link);
    assert(!s0.staffs@.contains_key(ks(k))) by {
        if s0.staffs@.contains_key(ks(k)) {
            assert(ks(k) + s0.staffs@[ks(k)]@.len() <= sub_link_max(s0));
        }
    }
    assert(!s0.clefs@.contains_key(kc(k))) by {
        if s0.clefs@.contains_key(kc(k)) {
            assert(kc(k) + s0.clefs@[kc(k)]@.len() <= sub_link_max(s0));
        }
    }
    assert(!s0.keysigs@.contains_key(kk(k))) by {
        if s0.keysigs@.contains_key(kk(k)) {
            assert(kk(k) + s0.keysigs@[kk(k)]@.len() <= sub_link_max(s0));
        }
    }
    assert(!s0.connects@.contains_key(kn(k))) by {
        if s0.connects@.contains_key(kn(k)) {
            assert(kn(k) + s0.connects@[kn(k)]@.len() <= sub_link_max(s0));
        }
    }
    lemma_maps_extended_step(s0.staffs@, pre.staffs@, post.staffs@, k, ks, staff_lists(c, p));
    lemma_maps_extended_step(s0.clefs@, pre.clefs@, post.clefs@, k, kc, clef_lists(p));
    lemma_maps_extended_step(s0.keysigs@, pre.keysigs@, post.keysigs@, k, kk, keysig_lists(p));
    if p.has_connect {
        lemma_maps_extended_step(s0.connects@, pre.connects@, post.connects@, k, kn, connect_lists(p));
    }
}

/// The System object at each link of `links` is chained to the Systems at
/// the links before and after it (`NILINK` at either end) and numbered by
/// its position, from 1.
pub open spec fn systems_chained(objs: Seq<InterpretedObject>, links: Seq<Link>) -> bool {
    forall|i: int| 0 <= i < links.len() ==> match #[trigger] objs[links[i] as int].data {
        ObjData::System(sys) => {
            &&& sys.l_system == (if i > 0 { links[i - 1] } else { NILINK })
            &&& sys.r_system == (if i + 1 < links.len() { links[i + 1] } else { NILINK })
            &&& sys.system_num == (i + 1) as i16
        },
        _ => false,
    }
}

/// The links of the System objects after inserting every system break: the
/// first system's, then one per inserted system.
pub open spec fn break_system_links(
    objs: Seq<InterpretedObject>,
    sub0: Link,
    c: LayoutConfig,
    p: PreambleInfo,
    measures: Seq<MeasureView>,
    ranges: Seq<(usize, usize)>,
    spp: usize,
) -> Seq<Link> {
    breaks_to(BreakState { objs, sub: sub0, sys_links: seq![p.system_link] }, c, p, measures, ranges, spp, ranges.len() as int).sys_links
}

proof fn lemma_chain_systems(objs: Seq<InterpretedObject>, links: Seq<Link>, i: int)
    requires
        0 <= i <= links.len(),
        forall|j: int| 0 <= j < links.len() ==> (#[trigger] links[j] as int) < objs.len(),
        forall|j1: int, j2: int| 0 <= j1 < j2 < links.len() ==> #[trigger] links[j1] != #[trigger] links[j2],
        forall|j: int| i <= j < links.len() ==> (#[trigger] objs[links[j] as int]).data is System,
    ensures
        chain_systems(objs, links, i).len() == objs.len(),
        forall|j: int| i <= j < links.len() ==> match #[trigger] chain_systems(objs, links, i)[links[j] as int].data {
            ObjData::System(sys) => {
                &&& sys.l_system == (if j > 0 { links[j - 1] } else { NILINK })
                &&& sys.r_system == (if j + 1 < links.len() { links[j + 1] } else { NILINK })
                &&& sys.system_num == (j + 1) as i16
            },
            _ => false,
        },
        forall|x: int| 0 <= x < objs.len() && (forall|j: int| i <= j < links.len() ==> #[trigger] links[j] as int != x)
            ==> #[trigger] chain_systems(objs, links, i)[x] == objs[x],
    decreases links.len() - i,
{
    if i < links.len() {
        let l = links[i];
        let o = objs[l as int];
        let objs2 = match o.data {
            ObjData::System(sys) => objs.update(l as int, InterpretedObject {
                data: ObjData::System(System {
                    l_system: if i > 0 { links[i - 1] } else { NILINK },
                    r_system: if i + 1 < links.len() { links[i + 1] } else { NILINK },
                    system_num: (i + 1) as i16,
                    ..sys
                }),
                ..o
            }),
            _ => objs,
        };
        assert forall|j: int| i + 1 <= j < links.len() implies (#[trigger] objs2[links[j] as int]).data is System by {
            assert(links[i] != links[j]);
        }
        lemma_chain_systems(objs2, links, i + 1);
        let r = chain_systems(objs, links, i);
        assert(r == chain_systems(objs2, links, i + 1));
        assert forall|x: int| 0 <= x < objs.len() && (forall|j: int| i <= j < links.len() ==> #[trigger] links[j] as int != x)
            implies #[trigger] r[x] == objs[x] by {
            assert(links[i] as int != x);
            assert(forall|j: int| i + 1 <= j < links.len() ==> #[trigger] links[j] as int != x);
        }
        assert(forall|j: int| i + 1 <= j < links.len() ==> #[trigger] links[j] as int != links[i] as int);
    }
}

proof fn lemma_break_step_keeps_systems(
    st: BreakState,
    c: LayoutConfig,
    p: PreambleInfo,
    measures: Seq<MeasureView>,
    ranges: Seq<(usize, usize)>,
    spp: usize,
    k: int,
)
    requires
        spp > 0,
        1 <= k < ranges.len(),
        1 <= ranges[k - 1].1 <= measures.len(),
        ranges[k].0 < measures.len(),
        (measures[ranges[k - 1].1 - 1].last_link as int) < st.objs.len(),
        (measures[ranges[k].0 as int].obj_link as int) < st.objs.len(),
        (p.page_link as int) < st.objs.len(),
        st.objs.len() + 6 < 0x10000,
    ensures
        ({
            let st2 = break_step(st, c, p, measures, ranges, spp, k);
            let link = st2.sys_links.last();
            &&& st2.objs.len() >= st.objs.len()
            &&& st2.sys_links == st.sys_links.push(link)
            &&& st.objs.len() <= link < st2.objs.len()
            &&& st2.objs.len() <= st.objs.len() + 6
            &&& st2.objs[link as int].data is System
            &&& forall|x: int| 0 <= x < st.objs.len() && (#[trigger] st.objs[x]).data is System ==> st2.objs[x].data is System
        }),
{
    let sys_in_page = k % (spp as int);
    let page_idx = k / (spp as int);
    let prev_last = measures[ranges[k - 1].1 - 1].last_link;
    let new_page = sys_in_page == 0 && page_idx > 0;
    let page_link = st.objs.len() as Link;
    let objs1 = if new_page {
        with_right(objects_with_page(st.objs, page_idx as usize, prev_last, p.page_link), prev_last, page_link)
    } else {
        st.objs
    };
    assert(objs1.len() == st.objs.len() || objs1.len() == st.objs.len() + 1);
    assert forall|x: int| 0 <= x < st.objs.len() && (#[trigger] st.objs[x]).data is System implies objs1[x].data is System by {
        if new_page {
            let o = objects_with_page(st.objs, page_idx as usize, prev_last, p.page_link);
            assert(o[x].data is System);
        }
    }
}

proof fn lemma_new_system_fits_smaller(l1: int, l2: int, c: LayoutConfig, p: PreambleInfo, s1: Link, s2: Link, r: usize)
    requires
        new_system_fits(l1, c, p, s1, r),
        0 <= l2 <= l1,
        s2 <= s1,
    ensures
        new_system_fits(l2, c, p, s2, r),
{
}

/// Insert systems `1..` of `system_ranges` into the object list
/// (`spec_system_breaks`): each new system starts after the last object of
/// the previous one, `sys_per_page` systems to a page with a new Page
/// object at the top of each further page; the last system's last object
/// links to the Tail, and the System objects are chained and numbered.
/// With one system or none nothing changes.
#[verifier::rlimit(40)]
pub fn insert_system_breaks(
    score: &mut InterpretedScore,
    config: &LayoutConfig,
    preamble: &PreambleInfo,
    measures: &Vec<MeasureInfo>,
    system_ranges: &Vec<(usize, usize)>,
    sys_per_page: usize,
)
    requires
        system_ranges@.len() > 1 ==> system_breaks_fit(*old(score), *config, *preamble,
            measures@.map_values(|m: MeasureInfo| m@), system_ranges@, sys_per_page),
    ensures
        system_ranges@.len() <= 1 ==> final(score).objects@ == old(score).objects@,
        system_ranges@.len() > 1 ==> final(score).objects@ == spec_system_breaks(old(score).objects@,
            (sub_link_max(*old(score)) + 100) as Link, *config, *preamble,
            measures@.map_values(|m: MeasureInfo| m@), system_ranges@, sys_per_page),
        system_ranges@.len() > 1 ==> break_system_links(old(score).objects@, (sub_link_max(*old(score)) + 100) as Link,
            *config, *preamble, measures@.map_values(|m: MeasureInfo| m@), system_ranges@, sys_per_page).len()
            == system_ranges@.len(),
        system_ranges@.len() > 1 && old(score).objects@[preamble.system_link as int].data is System
            ==> systems_chained(final(score).objects@, break_system_links(old(score).objects@,
                (sub_link_max(*old(score)) + 100) as Link, *config, *preamble,
                measures@.map_values(|m: MeasureInfo| m@), system_ranges@, sys_per_page)),
        system_ranges@.len() <= 1 ==> final(score).staffs@ == old(score).staffs@ && final(score).clefs@ == old(score).clefs@
            && final(score).keysigs@ == old(score).keysigs@ && final(score).connects@ == old(score).connects@,
        system_ranges@.len() > 1 ==> ({
            let sub0 = sub_link_max(*old(score)) + 100;
            let ns = preamble.num_staves as int;
            let hc = if preamble.has_connect { 1int } else { 0int };
            let kk = system_ranges@.len() as int;
            &&& maps_extended(final(score).staffs@, old(score).staffs@, kk,
                break_key(sub0, *preamble, 0), staff_lists(*config, *preamble))
            &&& maps_extended(final(score).clefs@, old(score).clefs@, kk,
                break_key(sub0, *preamble, ns + hc), clef_lists(*preamble))
            &&& maps_extended(final(score).keysigs@, old(score).keysigs@, kk,
                break_key(sub0, *preamble, 2 * ns + hc), keysig_lists(*preamble))
            &&& preamble.has_connect ==> maps_extended(final(score).connects@, old(score).connects@, kk,
                break_key(sub0, *preamble, ns), connect_lists(*preamble))
            &&& !preamble.has_connect ==> final(score).connects@ == old(score).connects@
        }),
        final(score).head_l == old(score).head_l,
        final(score).measures@ == old(score).measures@,
        final(score).timesigs@ == old(score).timesigs@,
        final(score).dynamics@ == old(score).dynamics@,
        final(score).notes@ == old(score).notes@,
        final(score).notebeams@ == old(score).notebeams@,
        final(score).slurs@ == old(score).slurs@,
        final(score).part_infos@ == old(score).part_infos@,
        final(score).number_meas == old(score).number_meas,
        final(score).first_mn_number == old(score).first_mn_number,
        final(score).above_mn == old(score).above_mn,
        final(score).start_mn_print1 == old(score).start_mn_print1,
{
    let kk = system_ranges.len();
    if kk <= 1 {
        return;
    }
    let ghost s0 = *score;
    let ghost ms = measures@.map_values(|m: MeasureInfo| m@);
    let ghost l0 = score.objects@.len() as int;
    let ghost sub_max = sub_link_max(s0) + 100 + kk * sub_step(*preamble);
    let max_sub = find_max_sub_link(score);
    let mut next_sub: Link = max_sub + 100;
    let ghost st0 = BreakState { objs: score.objects@, sub: next_sub, sys_links: seq![preamble.system_link] };
    let mut all_system_links: Vec<Link> = Vec::new();
    all_system_links.push(preamble.system_link);
    let mut sys_idx: usize = 1;
    while sys_idx < kk
        invariant
            kk == system_ranges@.len(),
            kk > 1,
            ms == measures@.map_values(|m: MeasureInfo| m@),
            l0 == s0.objects@.len(),
            sub_max == sub_link_max(s0) + 100 + kk * sub_step(*preamble),
            system_breaks_fit(s0, *config, *preamble, ms, system_ranges@, sys_per_page),
            st0 == (BreakState { objs: s0.objects@, sub: (sub_link_max(s0) + 100) as Link, sys_links: seq![preamble.system_link] }),
            1 <= sys_idx <= kk,
            breaks_to(st0, *config, *preamble, ms, system_ranges@, sys_per_page, sys_idx as int)
                == (BreakState { objs: score.objects@, sub: next_sub, sys_links: all_system_links@ }),
            l0 <= score.objects@.len() <= l0 + 6 * (sys_idx - 1),
            next_sub == sub_link_max(s0) + 100 + (sys_idx - 1) * sub_step(*preamble),
            forall|j: int| 0 <= j < all_system_links@.len() ==> (#[trigger] all_system_links@[j] as int) < score.objects@.len(),
            all_system_links@.len() == sys_idx,
            all_system_links@[0] == preamble.system_link,
            forall|j: int| 1 <= j < all_system_links@.len() ==> l0 <= #[trigger] all_system_links@[j],
            forall|j1: int, j2: int| 1 <= j1 < j2 < all_system_links@.len()
                ==> #[trigger] all_system_links@[j1] < #[trigger] all_system_links@[j2],
            forall|j: int| 1 <= j < all_system_links@.len() ==> (#[trigger] score.objects@[all_system_links@[j] as int]).data is System,
            s0.objects@[preamble.system_link as int].data is System ==> score.objects@[preamble.system_link as int].data is System,
            all_sub_ends_within(s0, sub_link_max(s0)),
            break_maps_at(*score, s0, *config, *preamble, sys_idx as int),
            score.head_l == s0.head_l,
            score.measures@ == s0.measures@,
            score.timesigs@ == s0.timesigs@,
            score.dynamics@ == s0.dynamics@,
            score.notes@ == s0.notes@,
            score.notebeams@ == s0.notebeams@,
            score.slurs@ == s0.slurs@,
            score.part_infos@ == s0.part_infos@,
            score.number_meas == s0.number_meas,
            score.first_mn_number == s0.first_mn_number,
            score.above_mn == s0.above_mn,
            score.start_mn_print1 == s0.start_mn_print1,
        decreases kk - sys_idx,
    {
        let ghost st = BreakState { objs: score.objects@, sub: next_sub, sys_links: all_system_links@ };
        let sys_start = system_ranges[sys_idx].0;
        let sys_in_page = sys_idx % sys_per_page;
        let page_idx = sys_idx / sys_per_page;
        let prev_sys_end = system_ranges[sys_idx - 1].1;
        assert(ms[prev_sys_end - 1] == measures@[prev_sys_end - 1]@);
        let prev_last = measures[prev_sys_end - 1].last_link;
        let splice_after: Link = if sys_in_page == 0 && page_idx > 0 {
            let page_link = append_page_object(score, page_idx, prev_last, preamble.page_link);
            set_right(&mut score.objects, prev_last, page_link);
            page_link
        } else {
            prev_last
        };
        let page_l: Link = if page_idx > 0 && sys_in_page == 0 { splice_after } else { preamble.page_link };
        proof {
            let stp = sub_step(*preamble);
            assert(stp >= 0);
            assert((sys_idx as int - 1) * stp <= kk as int * stp) by (nonlinear_arith)
                requires stp >= 0, sys_idx <= kk;
            assert(new_system_fits(l0 + 6 * kk, *config, *preamble, sub_max as Link, (sys_idx as int % (sys_per_page as int)) as usize));
            lemma_new_system_fits_smaller(l0 + 6 * kk, score.objects@.len() as int, *config, *preamble, sub_max as Link, next_sub, sys_in_page);
        }
        let ghost pre = *score;
        let ghost sub_before = next_sub;
        let (sys_link, preamble_last) = append_system_preamble(score, config, preamble, &mut next_sub, sys_idx, sys_in_page, page_l);
        proof {
            lemma_break_maps_step(s0, pre, *score, *config, *preamble, sub_before, sys_idx as int);
        }
        all_system_links.push(sys_link);
        set_right(&mut score.objects, splice_after, sys_link);
        set_left(&mut score.objects, sys_link, splice_after);
        assert(ms[sys_start as int] == measures@[sys_start as int]@);
        let first_meas = measures[sys_start].obj_link;
        set_right(&mut score.objects, preamble_last, first_meas);
        set_left(&mut score.objects, first_meas, preamble_last);
        assert(break_step(st, *config, *preamble, ms, system_ranges@, sys_per_page, sys_idx as int)
            == (BreakState { objs: score.objects@, sub: next_sub, sys_links: all_system_links@ }));
        proof {
            lemma_break_step_keeps_systems(st, *config, *preamble, ms, system_ranges@, sys_per_page, sys_idx as int);
            let stp = sub_step(*preamble);
            assert((sys_idx as int) * stp == (sys_idx as int - 1) * stp + stp) by (nonlinear_arith);
        }
        sys_idx = sys_idx + 1;
    }
    let last_sys_end = system_ranges[kk - 1].1;
    assert(ms[last_sys_end - 1] == measures@[last_sys_end - 1]@);
    let last_obj = measures[last_sys_end - 1].last_link;
    let ghost after_loop = score.objects@;
    set_right(&mut score.objects, last_obj, preamble.tail_link);
    set_left(&mut score.objects, preamble.tail_link, last_obj);
    let ghost before_chain = score.objects@;
    proof {
        assert forall|x: int| 0 <= x < after_loop.len() implies #[trigger] before_chain[x].data == after_loop[x].data by {}
        if s0.objects@[preamble.system_link as int].data is System {
            let links = all_system_links@;
            assert forall|j: int| 0 <= j < links.len() implies (#[trigger] before_chain[links[j] as int]).data is System by {
                assert(before_chain[links[j] as int].data == after_loop[links[j] as int].data);
            }
            assert forall|j1: int, j2: int| 0 <= j1 < j2 < links.len() implies #[trigger] links[j1] != #[trigger] links[j2] by {
                if j1 == 0 {
                    assert(links[j2] >= l0);
                }
            }
            lemma_chain_systems(before_chain, links, 0);
        }
    }
    let ghost kk_int = kk as int;
    let mut i: usize = 0;
    while i < all_system_links.len()
        invariant
            i <= all_system_links@.len(),
            break_maps_at(*score, s0, *config, *preamble, kk_int),
            kk_int == system_ranges@.len(),
            score.objects@.len() == before_chain.len(),
            forall|j: int| 0 <= j < all_system_links@.len() ==> (#[trigger] all_system_links@[j] as int) < score.objects@.len(),
            chain_systems(before_chain, all_system_links@, 0) == chain_systems(score.objects@, all_system_links@, i as int),
            score.head_l == s0.head_l,
            score.measures@ == s0.measures@,
            score.timesigs@ == s0.timesigs@,
            score.dynamics@ == s0.dynamics@,
            score.notes@ == s0.notes@,
            score.notebeams@ == s0.notebeams@,
            score.slurs@ == s0.slurs@,
            score.part_infos@ == s0.part_infos@,
            score.number_meas == s0.number_meas,
            score.first_mn_number == s0.first_mn_number,
            score.above_mn == s0.above_mn,
            score.start_mn_print1 == s0.start_mn_print1,
        decreases all_system_links@.len() - i,
    {
        let l = all_system_links[i];
        let mut o = score.objects[l as usize];
        if let ObjData::System(sys) = o.data {
            let mut sys2 = sys;
            sys2.l_system = if i > 0 { all_system_links[i - 1] } else { NILINK };
            sys2.r_system = if i + 1 < all_system_links.len() { all_system_links[i + 1] } else { NILINK };
            sys2.system_num = #[verifier::truncate] ((i + 1) as i16);
            o.data = ObjData::System(sys2);
            score.objects.set(l as usize, o);
        }
        i = i + 1;
    }
}

} // verus!
