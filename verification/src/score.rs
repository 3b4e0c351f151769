//! The in-memory score: a doubly linked list of objects, each of which may own
//! a list of subobjects (one per staff, or one per note of a chord).
//!
//! Objects live in `InterpretedScore::objects`, indexed by their link; the
//! list is threaded through `ObjectHeader::right` starting at `head_l` and
//! ends at `NILINK`. Subobject lists are kept in per-kind tables keyed by the
//! owning object's `first_sub_obj` link.
use vstd::prelude::*;
use std::collections::HashMap;
use crate::basic_types::{DRect, Ddist, KsInfo, Link, PartInfo, Rect, NILINK};

verus! {

broadcast use vstd::std_specs::hash::group_hash_axioms;

/// Header common to every object of the list.
#[derive(Debug, Clone, Copy, PartialEq, Eq)]
pub struct ObjectHeader {
    /// Next object in the list (`NILINK` at the end).
    pub right: Link,
    /// Previous object in the list (`NILINK` at the start).
    pub left: Link,
    /// Link of the object's subobject list.
    pub first_sub_obj: Link,
    /// Horizontal position.
    pub xd: Ddist,
    /// Vertical position.
    pub yd: Ddist,
    /// Object type code.
    pub obj_type: i8,
    /// Selected in the editor.
    pub selected: bool,
    /// Visible.
    pub visible: bool,
    /// Created by the program rather than the user.
    pub soft: bool,
    /// `obj_rect` is up to date.
    pub valid: bool,
    /// Moved by the user.
    pub tweaked: bool,
    /// Unused flag.
    pub spare_flag: bool,
    /// Unused.
    pub ohdr_filler1: i8,
    /// Enclosing rectangle.
    pub obj_rect: Rect,
    /// Size relative to the staff.
    pub rel_size: i8,
    /// Unused.
    pub ohdr_filler2: i8,
    /// Number of subobjects.
    pub n_entries: u8,
}

/// Header common to every subobject.
#[derive(Debug, Clone, Copy, PartialEq, Eq)]
pub struct SubObjHeader {
    /// Next subobject of the same object.
    pub next: Link,
    /// Staff number (1-based).
    pub staffn: i8,
    /// Kind of subobject (clef type, dynamic type, duration code, ...).
    pub sub_type: i8,
    /// Selected in the editor.
    pub selected: bool,
    /// Visible.
    pub visible: bool,
    /// Created by the program rather than the user.
    pub soft: bool,
}

/// A system: one line of staves on a page.
#[derive(Debug, Clone, Copy, PartialEq, Eq)]
pub struct System {
    pub header: ObjectHeader,
    /// Previous system.
    pub l_system: Link,
    /// Next system.
    pub r_system: Link,
    /// Page the system is on.
    pub page_l: Link,
    /// System number (1-based).
    pub system_num: i16,
    /// System rectangle, relative to the page.
    pub system_rect: DRect,
    /// Unused descriptor handle.
    pub sys_desc_ptr: i32,
}

/// A staff object: owns one `AStaff` per staff of its system.
#[derive(Debug, Clone, Copy, PartialEq, Eq)]
pub struct Staff {
    pub header: ObjectHeader,
    /// Staff object of the previous system.
    pub l_staff: Link,
    /// Staff object of the next system.
    pub r_staff: Link,
    /// The system of the staves.
    pub system_l: Link,
}

/// A page object.
#[derive(Debug, Clone, Copy, PartialEq, Eq)]
pub struct Page {
    pub header: ObjectHeader,
    /// Previous page.
    pub l_page: Link,
    /// Next page.
    pub r_page: Link,
    /// Sheet number (0-based).
    pub sheet_num: i16,
    /// Header text in the string pool.
    pub header_str_offset: i32,
    /// Footer text in the string pool.
    pub footer_str_offset: i32,
}

/// A connect object: the brackets and braces at the left of a system.
#[derive(Debug, Clone, Copy, PartialEq, Eq)]
pub struct Connect {
    pub header: ObjectHeader,
    /// Unused.
    pub conn_filler: Link,
}

/// One note's share of a beam: the Sync it belongs to and how the beam
/// starts or ends there.
#[derive(Debug, Clone, Copy, PartialEq, Eq)]
pub struct ANoteBeam {
    /// Next subobject.
    pub next: Link,
    /// The Sync of the beamed note.
    pub bp_sync: Link,
    /// Number of beams starting (positive) or ending (negative) here.
    pub startend: i8,
    /// Number of fractional beams.
    pub fracs: u8,
    /// Fractional beams point left.
    pub frac_go_left: bool,
}

/// One slur or tie of a Slur object.
#[derive(Debug, Clone, Copy, PartialEq, Eq)]
pub struct ASlur {
    /// Next subobject.
    pub next: Link,
    /// Selected in the editor.
    pub selected: bool,
    /// Shown.
    pub visible: bool,
    /// Created by the program.
    pub soft: bool,
    /// Drawn dashed.
    pub dashed: bool,
    /// Index of the first note in its chord.
    pub first_ind: i8,
    /// Index of the last note in its chord.
    pub last_ind: i8,
}

/// One bracket or brace of a Connect object.
#[derive(Debug, Clone, Copy, PartialEq, Eq)]
pub struct AConnect {
    /// Next subobject.
    pub next: Link,
    /// Selected in the editor.
    pub selected: bool,
    pub filler: u8,
    /// System, group or part level.
    pub conn_level: u8,
    /// Line, bracket or brace.
    pub connect_type: u8,
    /// Top staff.
    pub staff_above: i8,
    /// Bottom staff.
    pub staff_below: i8,
    /// Horizontal offset.
    pub xd: Ddist,
    /// First part.
    pub first_part: Link,
    /// Last part.
    pub last_part: Link,
}

/// A measure object: owns one `AMeasure` per staff.
#[derive(Debug, Clone, Copy, PartialEq, Eq)]
pub struct Measure {
    pub header: ObjectHeader,
    /// Time of the measure's start from the start of the score, in ticks.
    pub l_time_stamp: i32,
}

/// A clef object: owns one `AClef` per staff with a clef.
#[derive(Debug, Clone, Copy, PartialEq, Eq)]
pub struct Clef {
    pub header: ObjectHeader,
    /// Inside a measure rather than in a system's preamble.
    pub in_measure: bool,
}

/// A key signature object: owns one `AKeySig` per staff.
#[derive(Debug, Clone, Copy, PartialEq, Eq)]
pub struct KeySig {
    pub header: ObjectHeader,
    /// Inside a measure rather than in a system's preamble.
    pub in_measure: bool,
}

/// A time signature object: owns one `ATimeSig` per staff.
#[derive(Debug, Clone, Copy, PartialEq, Eq)]
pub struct TimeSig {
    pub header: ObjectHeader,
    /// Inside a measure rather than in a system's preamble.
    pub in_measure: bool,
}

/// A dynamic marking object: owns one `ADynamic` per marking.
#[derive(Debug, Clone, Copy, PartialEq, Eq)]
pub struct Dynamic {
    pub header: ObjectHeader,
    /// Dynamic type code (1 = pppp ... 12 = ffff, then sf, fz, ... and hairpins).
    pub dynamic_type: i8,
}

/// A sync: the notes and rests that start at one time, one `ANote` each.
#[derive(Debug, Clone, Copy, PartialEq, Eq)]
pub struct Sync {
    pub header: ObjectHeader,
    /// Time from the start of the measure, in ticks.
    pub time_stamp: u16,
}

/// A tempo marking.
#[derive(Debug, Clone, Copy, PartialEq, Eq)]
pub struct Tempo {
    pub header: ObjectHeader,
    /// Metronome value in beats per minute.
    pub tempo_mm: i16,
    /// True when the metronome value is not to be played.
    pub no_mm: bool,
}

/// Per-staff data of a Staff object.
#[derive(Debug, Clone, Copy, PartialEq, Eq)]
pub struct AStaff {
    /// Next subobject.
    pub next: Link,
    /// Staff number (1-based).
    pub staffn: i8,
    /// Selected in the editor.
    pub selected: bool,
    /// Visible.
    pub visible: bool,
    /// Unused flag.
    pub filler_stf: bool,
    /// Top of the staff, relative to its system.
    pub staff_top: Ddist,
    /// Left edge of the staff.
    pub staff_left: Ddist,
    /// Right edge of the staff.
    pub staff_right: Ddist,
    /// Height of the staff.
    pub staff_height: Ddist,
    /// Number of staff lines.
    pub staff_lines: i8,
    /// Which lines are shown (`SHOW_ALL_LINES` for all).
    pub show_lines: u8,
    /// Nonzero when ledger lines are shown.
    pub show_ledgers: u8,
    /// Preferred font size.
    pub font_size: i16,
    /// Vertical space between flags.
    pub flag_leading: Ddist,
    /// Minimum stem length free of flags and beams.
    pub min_stem_free: Ddist,
    /// Standard ledger line length.
    pub ledger_width: Ddist,
    /// Width of a common note head.
    pub note_head_width: Ddist,
    /// Width of a fractional beam.
    pub frac_beam_width: Ddist,
    /// Space below the staff.
    pub space_below: Ddist,
    /// Unused.
    pub filler: i8,
    /// Clef in effect at the staff's start.
    pub clef_type: i8,
    /// Dynamic in effect at the staff's start.
    pub dynamic_type: i8,
    /// Key signature in effect at the staff's start.
    pub ks_info: KsInfo,
    /// Time signature type in effect at the staff's start.
    pub time_sig_type: i8,
    /// Time signature numerator.
    pub numerator: i8,
    /// Time signature denominator.
    pub denominator: i8,
}

/// Per-staff data of a Measure object.
#[derive(Debug, Clone, Copy, PartialEq, Eq)]
pub struct AMeasure {
    pub header: SubObjHeader,
    /// The measure is visible on this staff.
    pub measure_visible: bool,
    /// The measure's rectangle on this staff.
    pub meas_size_rect: DRect,
    /// Clef in effect.
    pub clef_type: i8,
    /// Dynamic in effect.
    pub dynamic_type: i8,
    /// Key signature in effect.
    pub ks_info: KsInfo,
    /// Time signature type in effect.
    pub time_sig_type: i8,
    /// Time signature numerator.
    pub numerator: i8,
    /// Time signature denominator.
    pub denominator: i8,
    /// Measure number (relative to the score's first measure number).
    pub measure_num: i16,
    /// Reserved; negative for a fake measure.
    pub reserved_m: i8,
}

/// One clef on one staff; the clef type is `header.sub_type`.
#[derive(Debug, Clone, Copy, PartialEq, Eq)]
pub struct AClef {
    pub header: SubObjHeader,
    pub filler1: u8,
    /// Drawn small.
    pub small: u8,
    pub filler2: u8,
    /// Horizontal offset.
    pub xd: Ddist,
    /// Vertical offset.
    pub yd: Ddist,
}

/// One key signature on one staff.
#[derive(Debug, Clone, Copy, PartialEq, Eq)]
pub struct AKeySig {
    pub header: SubObjHeader,
    /// Not a standard key signature.
    pub nonstandard: u8,
    pub filler1: u8,
    /// Drawn small.
    pub small: u8,
    pub filler2: u8,
    /// Horizontal offset.
    pub xd: Ddist,
    /// The key signature.
    pub ks_info: KsInfo,
}

/// One time signature on one staff.
#[derive(Debug, Clone, Copy, PartialEq, Eq)]
pub struct ATimeSig {
    pub header: SubObjHeader,
    pub filler: u8,
    /// Drawn small.
    pub small: u8,
    /// Connected staff.
    pub conn_staff: i8,
    /// Horizontal offset.
    pub xd: Ddist,
    /// Vertical offset.
    pub yd: Ddist,
    /// Numerator.
    pub numerator: i8,
    /// Denominator.
    pub denominator: i8,
}

/// One dynamic marking; its type is `header.sub_type`.
#[derive(Debug, Clone, Copy, PartialEq, Eq)]
pub struct ADynamic {
    pub header: SubObjHeader,
    /// Horizontal offset.
    pub xd: Ddist,
    /// Vertical offset.
    pub yd: Ddist,
}

/// One note or rest of a sync; its duration code is `header.sub_type`.
#[derive(Debug, Clone, Copy, PartialEq, Eq)]
pub struct ANote {
    pub header: SubObjHeader,
    /// A rest rather than a note.
    pub rest: bool,
    /// MIDI note number.
    pub note_num: u8,
    /// Number of augmentation dots.
    pub ndots: u8,
    /// Accidental code (0 = none).
    pub accident: u8,
    /// Playback start offset from the sync's time, in ticks.
    pub play_time_delta: i16,
    /// Playback duration, in ticks.
    pub play_dur: i16,
    /// MIDI note-on velocity.
    pub on_velocity: u8,
    /// Voice number.
    pub voice: i8,
    /// Vertical position of the note head.
    pub yd: Ddist,
    /// Vertical position of the stem end (equal to `yd` when there is no stem).
    pub ystem: Ddist,
    /// The note head is on the other side of the stem.
    pub other_stem_side: bool,
    /// Tied to the note on its left.
    pub tied_l: bool,
    /// Tied to the note on its right.
    pub tied_r: bool,
    /// Slurred to the note on its left.
    pub slurred_l: bool,
    /// Slurred to the note on its right.
    pub slurred_r: bool,
}

/// The type-specific part of an object.
#[derive(Debug, Clone, Copy, PartialEq, Eq)]
pub enum ObjData {
    Header(ObjectHeader),
    Tail(ObjectHeader),
    Page(Page),
    System(System),
    Staff(Staff),
    Connect(Connect),
    Measure(Measure),
    Clef(Clef),
    KeySig(KeySig),
    TimeSig(TimeSig),
    Sync(Sync),
    Dynamic(Dynamic),
    Tempo(Tempo),
    /// Any other kind of object (beams, slurs, graphics, ...).
    Other(ObjectHeader),
}

/// An object of the list: its link, its header and its data.
#[derive(Debug, Clone, Copy, PartialEq, Eq)]
pub struct InterpretedObject {
    /// The object's own link (its index in `InterpretedScore::objects`).
    pub index: Link,
    pub header: ObjectHeader,
    pub data: ObjData,
}

/// A whole score.
#[derive(Debug, Clone)]
pub struct InterpretedScore {
    /// Objects, indexed by link.
    pub objects: Vec<InterpretedObject>,
    /// Link of the first object of the list.
    pub head_l: Link,
    /// Staff subobject lists, keyed by the owning object's `first_sub_obj`.
    pub staffs: HashMap<Link, Vec<AStaff>>,
    /// Measure subobject lists.
    pub measures: HashMap<Link, Vec<AMeasure>>,
    /// Clef subobject lists.
    pub clefs: HashMap<Link, Vec<AClef>>,
    /// Key signature subobject lists.
    pub keysigs: HashMap<Link, Vec<AKeySig>>,
    /// Time signature subobject lists.
    pub timesigs: HashMap<Link, Vec<ATimeSig>>,
    /// Dynamic subobject lists.
    pub dynamics: HashMap<Link, Vec<ADynamic>>,
    /// Note and rest subobject lists.
    pub notes: HashMap<Link, Vec<ANote>>,
    /// Connect subobject lists.
    pub connects: HashMap<Link, Vec<AConnect>>,
    /// Beam subobject lists.
    pub notebeams: HashMap<Link, Vec<ANoteBeam>>,
    /// Slur and tie subobject lists.
    pub slurs: HashMap<Link, Vec<ASlur>>,
    /// Parts, in score order.
    pub part_infos: Vec<PartInfo>,
    /// Measure numbering: negative for the first measure of each system,
    /// 0 for none, `n` for every `n`th measure.
    pub number_meas: i8,
    /// Number of the first measure.
    pub first_mn_number: i16,
    /// Measure numbers go above the staff (else below).
    pub above_mn: bool,
    /// The first measure number printed is 1 (else 2).
    pub start_mn_print1: bool,
}

/// The links visited by walking the list from `cur`, following `right`,
/// stopping at `NILINK`, at a link outside `objs`, or after `fuel` objects.
pub open spec fn walk_from(objs: Seq<InterpretedObject>, cur: Link, fuel: nat) -> Seq<Link>
    decreases fuel,
{
    if fuel == 0 || cur == NILINK || cur as int >= objs.len() {
        Seq::empty()
    } else {
        seq![cur] + walk_from(objs, objs[cur as int].header.right, (fuel - 1) as nat)
    }
}

impl InterpretedScore {
    /// An empty score: no objects, no subobjects, no parts.
    pub fn new() -> (r: Self)
        ensures
            r.objects@.len() == 0,
            r.head_l == NILINK,
            r.staffs@ == Map::<Link, Vec<AStaff>>::empty(),
            r.measures@ == Map::<Link, Vec<AMeasure>>::empty(),
            r.clefs@ == Map::<Link, Vec<AClef>>::empty(),
            r.keysigs@ == Map::<Link, Vec<AKeySig>>::empty(),
            r.timesigs@ == Map::<Link, Vec<ATimeSig>>::empty(),
            r.dynamics@ == Map::<Link, Vec<ADynamic>>::empty(),
            r.notes@ == Map::<Link, Vec<ANote>>::empty(),
            r.connects@ == Map::<Link, Vec<AConnect>>::empty(),
            r.notebeams@ == Map::<Link, Vec<ANoteBeam>>::empty(),
            r.slurs@ == Map::<Link, Vec<ASlur>>::empty(),
            r.part_infos@.len() == 0,
            r.number_meas == 0,
            r.first_mn_number == 0,
            !r.above_mn,
            !r.start_mn_print1,
    {
        InterpretedScore {
            objects: Vec::new(),
            head_l: NILINK,
            staffs: HashMap::new(),
            measures: HashMap::new(),
            clefs: HashMap::new(),
            keysigs: HashMap::new(),
            timesigs: HashMap::new(),
            dynamics: HashMap::new(),
            notes: HashMap::new(),
            connects: HashMap::new(),
            notebeams: HashMap::new(),
            slurs: HashMap::new(),
            part_infos: Vec::new(),
            number_meas: 0,
            first_mn_number: 0,
            above_mn: false,
            start_mn_print1: false,
        }
    }

    /// The links of the objects in list order, from `head_l`. A list that
    /// loops back on itself is cut off after as many steps as there are
    /// objects.
    pub open spec fn walk_order(self) -> Seq<Link> {
        walk_from(self.objects@, self.head_l, self.objects@.len())
    }

    /// The object at a link of the walk.
    pub open spec fn obj_at(self, l: Link) -> InterpretedObject {
        self.objects@[l as int]
    }

    /// The object is a Staff whose subobject list is present.
    pub open spec fn is_staff_with_list(self, l: Link) -> bool {
        &&& self.obj_at(l).data is Staff
        &&& self.staffs@.contains_key(self.obj_at(l).header.first_sub_obj)
    }

    /// The first position of the walk, from `i` on, holding a Staff object
    /// whose subobject list is present; the walk's length if there is none.
    pub open spec fn staff_list_pos(self, i: int) -> int
        decreases self.walk_order().len() - i,
    {
        if i < 0 || i >= self.walk_order().len() {
            self.walk_order().len() as int
        } else if self.is_staff_with_list(self.walk_order()[i]) {
            i
        } else {
            self.staff_list_pos(i + 1)
        }
    }

    /// The number of staff subobjects of the first Staff object of the walk
    /// that has a subobject list, if any.
    pub open spec fn staff_count_spec(self) -> Option<nat> {
        let p = self.staff_list_pos(0);
        if p < self.walk_order().len() {
            Some(self.staffs@[self.obj_at(self.walk_order()[p]).header.first_sub_obj]@.len())
        } else {
            None
        }
    }

    /// The staff count of the first Staff object with a subobject list (see
    /// `staff_count_spec`).
    pub fn staff_count(&self) -> (r: Option<usize>)
        ensures
            r matches Some(n) ==> self.staff_count_spec() == Some(n as nat),
            r is None ==> self.staff_count_spec() is None,
    {
        let order = self.walk();
        let mut i: usize = 0;
        while i < order.len()
            invariant
                order@ == self.walk_order(),
                i <= order@.len(),
                forall|j: int| 0 <= j < order@.len() ==> (#[trigger] order@[j] as int) < self.objects@.len(),
                self.staff_list_pos(0) == self.staff_list_pos(i as int),
            decreases order.len() - i,
        {
            let l = order[i];
            let obj = &self.objects[l as usize];
            if let ObjData::Staff(_) = &obj.data {
                if let Some(list) = self.staffs.get(&obj.header.first_sub_obj) {
                    return Some(list.len());
                }
            }
            i = i + 1;
        }
        None
    }

    /// The first position of the walk, from `i` on, whose object's `index`
    /// is `target`; the walk's length if there is none.
    pub open spec fn index_pos(self, target: Link, i: int) -> int
        decreases self.walk_order().len() - i,
    {
        if i < 0 || i >= self.walk_order().len() {
            self.walk_order().len() as int
        } else if self.obj_at(self.walk_order()[i]).index == target {
            i
        } else {
            self.index_pos(target, i + 1)
        }
    }

    /// The links of the objects in list order (see `walk_order`).
    pub fn walk(&self) -> (r: Vec<Link>)
        ensures
            r@ == self.walk_order(),
            forall|i: int| 0 <= i < r@.len() ==> (#[trigger] r@[i] as int) < self.objects@.len(),
    {
        let mut r: Vec<Link> = Vec::new();
        let mut cur: Link = self.head_l;
        let mut fuel: usize = self.objects.len();
        proof {
            lemma_walk_from_in_range(self.objects@, cur, fuel as nat);
        }
        while fuel > 0 && cur != NILINK && (cur as usize) < self.objects.len()
            invariant
                r@ + walk_from(self.objects@, cur, fuel as nat) == self.walk_order(),
                forall|i: int| 0 <= i < r@.len() ==> (#[trigger] r@[i] as int) < self.objects@.len(),
                forall|i: int| 0 <= i < walk_from(self.objects@, cur, fuel as nat).len()
                    ==> (#[trigger] walk_from(self.objects@, cur, fuel as nat)[i] as int) < self.objects@.len(),
            decreases fuel,
        {
            let ghost old_r = r@;
            let ghost rest = walk_from(self.objects@, cur, fuel as nat);
            r.push(cur);
            let next = self.objects[cur as usize].header.right;
            proof {
                let tail = walk_from(self.objects@, next, (fuel - 1) as nat);
                assert(rest == seq![cur] + tail);
                assert(r@ + tail =~= old_r + rest);
                assert forall|i: int| 0 <= i < tail.len() implies (#[trigger] tail[i] as int) < self.objects@.len() by {
                    assert(tail[i] == rest[i + 1]);
                }
            }
            cur = next;
            fuel = fuel - 1;
        }
        assert(r@ + Seq::<Link>::empty() =~= r@);
        r
    }
}

proof fn lemma_walk_from_in_range(objs: Seq<InterpretedObject>, cur: Link, fuel: nat)
    ensures
        forall|i: int| 0 <= i < walk_from(objs, cur, fuel).len() ==> (#[trigger] walk_from(objs, cur, fuel)[i] as int) < objs.len(),
    decreases fuel,
{
    if fuel == 0 || cur == NILINK || cur as int >= objs.len() {
    } else {
        let next = objs[cur as int].header.right;
        lemma_walk_from_in_range(objs, next, (fuel - 1) as nat);
        let s = walk_from(objs, cur, fuel);
        let tail = walk_from(objs, next, (fuel - 1) as nat);
        assert forall|i: int| 0 <= i < s.len() implies (#[trigger] s[i] as int) < objs.len() by {
            if i > 0 {
                assert(s[i] == tail[i - 1]);
            }
        }
    }
}

} // verus!
