//! Musical context: the clef, key signature, time signature, dynamic and
//! staff geometry in effect on each staff at a point of the score.
//!
//! Context is found by walking the object list from its start and letting
//! each System, Staff, Measure, Clef, KeySig, TimeSig and Dynamic object
//! update the staves it names.
use vstd::prelude::*;
use crate::basic_types::{Ddist, KsInfo, Link, Rect};
use crate::defs::{trunc_div, lemma_trunc_div_bounded, DFLT_CLEF, DFLT_DENOM, DFLT_DYNAMIC, DFLT_NUMER, DFLT_TSTYPE};
use crate::score::{
    ADynamic, AClef, AKeySig, AMeasure, AStaff, ATimeSig, InterpretedObject, InterpretedScore,
    ObjData, System,
};

verus! {

broadcast use vstd::std_specs::hash::group_hash_axioms;

/// `AStaff::show_lines` value meaning that every staff line is shown.
pub const SHOW_ALL_LINES: u8 = 15;

/// The context of one staff.
#[derive(Debug, Clone, Copy, PartialEq, Eq)]
pub struct Context {
    /// Both the staff and the measure are visible.
    pub visible: bool,
    /// The staff is visible.
    pub staff_visible: bool,
    /// The measure is visible.
    pub measure_visible: bool,
    /// A Measure object has been seen.
    pub in_measure: bool,
    /// Paper rectangle.
    pub paper: Rect,
    /// Sheet number.
    pub sheet_num: i16,
    /// System number.
    pub system_num: i16,
    /// Top of the system.
    pub system_top: Ddist,
    /// Left edge of the system.
    pub system_left: Ddist,
    /// Bottom of the system.
    pub system_bottom: Ddist,
    /// Top of the staff.
    pub staff_top: Ddist,
    /// Left edge of the staff.
    pub staff_left: Ddist,
    /// Right edge of the staff.
    pub staff_right: Ddist,
    /// Height of the staff.
    pub staff_height: Ddist,
    /// Half the height of the staff.
    pub staff_half_height: Ddist,
    /// Number of staff lines.
    pub staff_lines: i8,
    /// Which staff lines are shown.
    pub show_lines: i8,
    /// Ledger lines are shown.
    pub show_ledgers: bool,
    /// Font size.
    pub font_size: i16,
    /// Top of the measure.
    pub measure_top: Ddist,
    /// Left edge of the measure.
    pub measure_left: Ddist,
    /// Clef type.
    pub clef_type: i8,
    /// Dynamic type.
    pub dynamic_type: i8,
    /// Key signature.
    pub ks_info: KsInfo,
    /// Time signature type.
    pub time_sig_type: i8,
    /// Time signature numerator.
    pub numerator: i8,
    /// Time signature denominator.
    pub denominator: i8,
}

/// The context of a staff before any object has been seen: visible, five
/// lines all shown, treble clef, mf, no key signature, 4/4.
pub open spec fn default_context_spec() -> Context {
    Context {
        visible: true,
        staff_visible: true,
        measure_visible: true,
        in_measure: false,
        paper: Rect { top: 0, left: 0, bottom: 0, right: 0 },
        sheet_num: 0,
        system_num: 0,
        system_top: 0,
        system_left: 0,
        system_bottom: 0,
        staff_top: 0,
        staff_left: 0,
        staff_right: 0,
        staff_height: 0,
        staff_half_height: 0,
        staff_lines: 5,
        show_lines: SHOW_ALL_LINES as i8,
        show_ledgers: true,
        font_size: 0,
        measure_top: 0,
        measure_left: 0,
        clef_type: DFLT_CLEF as i8,
        dynamic_type: DFLT_DYNAMIC as i8,
        ks_info: KsInfo::empty(),
        time_sig_type: DFLT_TSTYPE,
        numerator: DFLT_NUMER,
        denominator: DFLT_DENOM,
    }
}

/// Context of every staff; index 0 is unused so that staff `s` is at index `s`.
#[derive(Debug, Clone)]
pub struct ContextState {
    /// One context per staff, 1-based.
    pub contexts: Vec<Context>,
    /// Number of staves.
    pub num_staves: usize,
}

/// Staff `staff` has a context slot: it is in `1..=num_staves` and below `len`.
pub open spec fn slot_ok(len: int, num_staves: int, staff: int) -> bool {
    1 <= staff && staff <= num_staves && staff < len
}

/// Apply `upd` to the slot of each subobject's staff, in list order; a
/// subobject whose staff has no slot changes nothing.
pub open spec fn fold_subs<T>(
    ctxs: Seq<Context>,
    ns: int,
    subs: Seq<T>,
    staff_of: spec_fn(T) -> int,
    upd: spec_fn(Context, T) -> Context,
) -> Seq<Context>
    decreases subs.len(),
{
    if subs.len() == 0 {
        ctxs
    } else {
        let prev = fold_subs(ctxs, ns, subs.drop_last(), staff_of, upd);
        let s = subs.last();
        let k = staff_of(s);
        if slot_ok(prev.len() as int, ns, k) {
            prev.update(k, upd(prev[k], s))
        } else {
            prev
        }
    }
}

proof fn lemma_fold_subs_len<T>(
    ctxs: Seq<Context>,
    ns: int,
    subs: Seq<T>,
    staff_of: spec_fn(T) -> int,
    upd: spec_fn(Context, T) -> Context,
)
    ensures
        fold_subs(ctxs, ns, subs, staff_of, upd).len() == ctxs.len(),
    decreases subs.len(),
{
    if subs.len() > 0 {
        lemma_fold_subs_len(ctxs, ns, subs.drop_last(), staff_of, upd);
    }
}

/// A System object sets the system number and rectangle.
pub open spec fn system_update(c: Context, sys: System) -> Context {
    Context {
        system_num: sys.system_num,
        system_top: sys.system_rect.top,
        system_left: sys.system_rect.left,
        system_bottom: sys.system_rect.bottom,
        ..c
    }
}

/// A staff subobject sets the staff geometry and the stored context.
pub open spec fn staff_update(c: Context, a: AStaff) -> Context {
    Context {
        staff_visible: a.visible,
        staff_top: a.staff_top,
        staff_left: a.staff_left,
        staff_right: a.staff_right,
        staff_height: a.staff_height,
        staff_half_height: trunc_div(a.staff_height as int, 2) as i16,
        staff_lines: a.staff_lines,
        show_lines: a.show_lines as i8,
        show_ledgers: a.show_ledgers != 0,
        font_size: a.font_size,
        clef_type: a.clef_type,
        dynamic_type: a.dynamic_type,
        ks_info: a.ks_info,
        time_sig_type: a.time_sig_type,
        numerator: a.numerator,
        denominator: a.denominator,
        visible: a.visible && c.measure_visible,
        ..c
    }
}

/// A measure subobject sets measure visibility and position and the stored
/// context; `xd` is the Measure object's position.
pub open spec fn measure_update(c: Context, a: AMeasure, xd: Ddist) -> Context {
    Context {
        in_measure: true,
        measure_visible: a.measure_visible,
        measure_top: a.meas_size_rect.top,
        measure_left: xd,
        clef_type: a.clef_type,
        dynamic_type: a.dynamic_type,
        ks_info: a.ks_info,
        time_sig_type: a.time_sig_type,
        numerator: a.numerator,
        denominator: a.denominator,
        visible: c.staff_visible && a.measure_visible,
        ..c
    }
}

pub open spec fn staff_of_astaff() -> spec_fn(AStaff) -> int {
    |a: AStaff| a.staffn as int
}

pub open spec fn upd_astaff() -> spec_fn(Context, AStaff) -> Context {
    |c: Context, a: AStaff| staff_update(c, a)
}

pub open spec fn staff_of_ameasure() -> spec_fn(AMeasure) -> int {
    |a: AMeasure| a.header.staffn as int
}

pub open spec fn upd_ameasure(xd: Ddist) -> spec_fn(Context, AMeasure) -> Context {
    |c: Context, a: AMeasure| measure_update(c, a, xd)
}

pub open spec fn staff_of_aclef() -> spec_fn(AClef) -> int {
    |a: AClef| a.header.staffn as int
}

pub open spec fn upd_aclef() -> spec_fn(Context, AClef) -> Context {
    |c: Context, a: AClef| Context { clef_type: a.header.sub_type, ..c }
}

pub open spec fn staff_of_akeysig() -> spec_fn(AKeySig) -> int {
    |a: AKeySig| a.header.staffn as int
}

pub open spec fn upd_akeysig() -> spec_fn(Context, AKeySig) -> Context {
    |c: Context, a: AKeySig| Context { ks_info: a.ks_info, ..c }
}

pub open spec fn staff_of_atimesig() -> spec_fn(ATimeSig) -> int {
    |a: ATimeSig| a.header.staffn as int
}

pub open spec fn upd_atimesig(ts_type: i8) -> spec_fn(Context, ATimeSig) -> Context {
    |c: Context, a: ATimeSig| Context {
        time_sig_type: ts_type,
        numerator: a.numerator,
        denominator: a.denominator,
        ..c
    }
}

pub open spec fn staff_of_adynamic() -> spec_fn(ADynamic) -> int {
    |a: ADynamic| a.header.staffn as int
}

pub open spec fn upd_adynamic() -> spec_fn(Context, ADynamic) -> Context {
    |c: Context, a: ADynamic| Context { dynamic_type: a.header.sub_type, ..c }
}

/// The contexts after one object: a System updates staves `1..=num_staves`
/// (at most 127, the staff numbers an `i8` names); Staff, Measure, Clef,
/// KeySig, TimeSig and Dynamic objects update the staff of each of their
/// subobjects in list order; any other object changes nothing.
pub open spec fn apply_object(ctxs: Seq<Context>, ns: int, obj: InterpretedObject, score: InterpretedScore) -> Seq<Context> {
    let key = obj.header.first_sub_obj;
    match obj.data {
        ObjData::System(sys) => Seq::new(
            ctxs.len(),
            |k: int| if 1 <= k && k <= ns && k <= 127 { system_update(ctxs[k], sys) } else { ctxs[k] },
        ),
        ObjData::Staff(_) => if score.staffs@.contains_key(key) {
            fold_subs(ctxs, ns, score.staffs@[key]@, staff_of_astaff(), upd_astaff())
        } else {
            ctxs
        },
        ObjData::Measure(_) => if score.measures@.contains_key(key) {
            fold_subs(ctxs, ns, score.measures@[key]@, staff_of_ameasure(), upd_ameasure(obj.header.xd))
        } else {
            ctxs
        },
        ObjData::Clef(_) => if score.clefs@.contains_key(key) {
            fold_subs(ctxs, ns, score.clefs@[key]@, staff_of_aclef(), upd_aclef())
        } else {
            ctxs
        },
        ObjData::KeySig(_) => if score.keysigs@.contains_key(key) {
            fold_subs(ctxs, ns, score.keysigs@[key]@, staff_of_akeysig(), upd_akeysig())
        } else {
            ctxs
        },
        ObjData::TimeSig(ts) => if score.timesigs@.contains_key(key) {
            fold_subs(ctxs, ns, score.timesigs@[key]@, staff_of_atimesig(), upd_atimesig(ts.header.obj_type))
        } else {
            ctxs
        },
        ObjData::Dynamic(_) => if score.dynamics@.contains_key(key) {
            fold_subs(ctxs, ns, score.dynamics@[key]@, staff_of_adynamic(), upd_adynamic())
        } else {
            ctxs
        },
        _ => ctxs,
    }
}

/// The contexts after the first `n` objects of the walk, from `init`.
pub open spec fn contexts_after(score: InterpretedScore, ns: int, init: Seq<Context>, n: int) -> Seq<Context>
    decreases n,
{
    if n <= 0 {
        init
    } else {
        apply_object(
            contexts_after(score, ns, init, n - 1),
            ns,
            score.obj_at(score.walk_order()[n - 1]),
            score,
        )
    }
}

/// `n + 1` default contexts (the unused slot 0 and one per staff).
pub open spec fn initial_contexts(n: int) -> Seq<Context> {
    Seq::new((n + 1) as nat, |i: int| default_context_spec())
}

proof fn lemma_apply_object_len(ctxs: Seq<Context>, ns: int, obj: InterpretedObject, score: InterpretedScore)
    ensures
        apply_object(ctxs, ns, obj, score).len() == ctxs.len(),
{
    let key = obj.header.first_sub_obj;
    match obj.data {
        ObjData::Staff(_) => if score.staffs@.contains_key(key) {
            lemma_fold_subs_len(ctxs, ns, score.staffs@[key]@, staff_of_astaff(), upd_astaff());
        },
        ObjData::Measure(_) => if score.measures@.contains_key(key) {
            lemma_fold_subs_len(ctxs, ns, score.measures@[key]@, staff_of_ameasure(), upd_ameasure(obj.header.xd));
        },
        ObjData::Clef(_) => if score.clefs@.contains_key(key) {
            lemma_fold_subs_len(ctxs, ns, score.clefs@[key]@, staff_of_aclef(), upd_aclef());
        },
        ObjData::KeySig(_) => if score.keysigs@.contains_key(key) {
            lemma_fold_subs_len(ctxs, ns, score.keysigs@[key]@, staff_of_akeysig(), upd_akeysig());
        },
        ObjData::TimeSig(ts) => if score.timesigs@.contains_key(key) {
            lemma_fold_subs_len(ctxs, ns, score.timesigs@[key]@, staff_of_atimesig(), upd_atimesig(ts.header.obj_type));
        },
        ObjData::Dynamic(_) => if score.dynamics@.contains_key(key) {
            lemma_fold_subs_len(ctxs, ns, score.dynamics@[key]@, staff_of_adynamic(), upd_adynamic());
        },
        _ => {},
    }
}

proof fn lemma_contexts_after_len(score: InterpretedScore, ns: int, init: Seq<Context>, n: int)
    ensures
        contexts_after(score, ns, init, n).len() == init.len(),
    decreases n,
{
    if n > 0 {
        lemma_contexts_after_len(score, ns, init, n - 1);
        lemma_apply_object_len(
            contexts_after(score, ns, init, n - 1),
            ns,
            score.obj_at(score.walk_order()[n - 1]),
            score,
        );
    }
}

impl ContextState {
    /// A state of `num_staves` staves, each with the default context.
    pub fn new(num_staves: usize) -> (r: Self)
        ensures
            r.num_staves == num_staves,
            r.contexts@ == initial_contexts(num_staves as int),
    {
        let mut contexts: Vec<Context> = Vec::new();
        contexts.push(Self::default_context());
        let mut i: usize = 0;
        while i < num_staves
            invariant
                i <= num_staves,
                contexts@ == initial_contexts(i as int),
            decreases num_staves - i,
        {
            contexts.push(Self::default_context());
            i = i + 1;
            assert(contexts@ =~= initial_contexts(i as int));
        }
        ContextState { contexts, num_staves }
    }

    /// The context of staff `staff`, or `None` when it has no slot.
    pub fn get(&self, staff: i8) -> (r: Option<&Context>)
        ensures
            r == if slot_ok(self.contexts@.len() as int, self.num_staves as int, staff as int) {
                Some(&self.contexts@[staff as int])
            } else {
                None::<&Context>
            },
    {
        if staff < 1 || staff as usize > self.num_staves || staff as usize >= self.contexts.len() {
            return None;
        }
        Some(&self.contexts[staff as usize])
    }

    /// A mutable reference to the context of staff `staff`, or `None` when
    /// it has no slot.
    pub fn get_mut(&mut self, staff: i8) -> (r: Option<&mut Context>)
        ensures
            slot_ok(old(self).contexts@.len() as int, old(self).num_staves as int, staff as int) ==> (
                r matches Some(c) && *c == old(self).contexts@[staff as int]
                && final(self).contexts@ == old(self).contexts@.update(staff as int, *final(c))
                && final(self).num_staves == old(self).num_staves),
            !slot_ok(old(self).contexts@.len() as int, old(self).num_staves as int, staff as int) ==> (
                r is None && *final(self) == *old(self)),
    {
        if staff < 1 || staff as usize > self.num_staves || staff as usize >= self.contexts.len() {
            return None;
        }
        Some(&mut self.contexts[staff as usize])
    }

    /// Update the contexts for one object (see `apply_object`).
    pub fn update_from_object(&mut self, obj: &InterpretedObject, score: &InterpretedScore)
        ensures
            final(self).num_staves == old(self).num_staves,
            final(self).contexts@ == apply_object(old(self).contexts@, old(self).num_staves as int, *obj, *score),
    {
        let ghost ctxs0 = self.contexts@;
        let ghost ns = self.num_staves as int;
        let key = obj.header.first_sub_obj;
        match &obj.data {
            ObjData::System(system) => {
                let mut staff: usize = 1;
                while staff <= self.num_staves && staff <= 127 && staff < self.contexts.len()
                    invariant
                        1 <= staff <= 128,
                        staff <= self.num_staves + 1,
                        self.num_staves == ns,
                        self.contexts@.len() == ctxs0.len(),
                        forall|k: int| 0 <= k < ctxs0.len() ==> #[trigger] self.contexts@[k] == if 1 <= k < staff {
                            system_update(ctxs0[k], *system)
                        } else {
                            ctxs0[k]
                        },
                    decreases 128 - staff,
                {
                    let mut c = self.contexts[staff];
                    c.system_num = system.system_num;
                    c.system_top = system.system_rect.top;
                    c.system_left = system.system_rect.left;
                    c.system_bottom = system.system_rect.bottom;
                    self.contexts.set(staff, c);
                    staff = staff + 1;
                }
                let ghost target = apply_object(ctxs0, ns, *obj, *score);
                assert forall|k: int| 0 <= k < ctxs0.len() implies #[trigger] self.contexts@[k] == target[k] by {
                    if 1 <= k && k <= ns && k <= 127 {
                        assert(k < staff);
                    }
                }
                assert(self.contexts@ =~= target);
            },
            ObjData::Staff(_) => {
                if let Some(list) = score.staffs.get(&key) {
                    let mut i: usize = 0;
                    while i < list.len()
                        invariant
                            i <= list@.len(),
                            self.num_staves == ns,
                            self.contexts@ == fold_subs(ctxs0, ns, list@.take(i as int), staff_of_astaff(), upd_astaff()),
                        decreases list.len() - i,
                    {
                        proof {
                            lemma_fold_subs_len(ctxs0, ns, list@.take(i as int), staff_of_astaff(), upd_astaff());
                            assert(list@.take(i + 1).drop_last() =~= list@.take(i as int));
                        }
                        let a = list[i];
                        let k = a.staffn;
                        if 1 <= k && k as usize <= self.num_staves && (k as usize) < self.contexts.len() {
                            let mut c = self.contexts[k as usize];
                            c.staff_visible = a.visible;
                            c.staff_top = a.staff_top;
                            c.staff_left = a.staff_left;
                            c.staff_right = a.staff_right;
                            c.staff_height = a.staff_height;
                            proof { lemma_trunc_div_bounded(a.staff_height as int, 2); }
                            c.staff_half_height = a.staff_height / 2;
                            c.staff_lines = a.staff_lines;
                            c.show_lines = #[verifier::truncate] (a.show_lines as i8);
                            c.show_ledgers = a.show_ledgers != 0;
                            c.font_size = a.font_size;
                            c.clef_type = a.clef_type;
                            c.dynamic_type = a.dynamic_type;
                            c.ks_info = a.ks_info;
                            c.time_sig_type = a.time_sig_type;
                            c.numerator = a.numerator;
                            c.denominator = a.denominator;
                            c.visible = c.staff_visible && c.measure_visible;
                            self.contexts.set(k as usize, c);
                        }
                        i = i + 1;
                    }
                    assert(list@.take(list@.len() as int) =~= list@);
                }
            },
            ObjData::Measure(_) => {
                if let Some(list) = score.measures.get(&key) {
                    let mut i: usize = 0;
                    while i < list.len()
                        invariant
                            i <= list@.len(),
                            self.num_staves == ns,
                            self.contexts@ == fold_subs(ctxs0, ns, list@.take(i as int), staff_of_ameasure(), upd_ameasure(obj.header.xd)),
                        decreases list.len() - i,
                    {
                        proof {
                            lemma_fold_subs_len(ctxs0, ns, list@.take(i as int), staff_of_ameasure(), upd_ameasure(obj.header.xd));
                            assert(list@.take(i + 1).drop_last() =~= list@.take(i as int));
                        }
                        let a = list[i];
                        let k = a.header.staffn;
                        if 1 <= k && k as usize <= self.num_staves && (k as usize) < self.contexts.len() {
                            let mut c = self.contexts[k as usize];
                            c.in_measure = true;
                            c.measure_visible = a.measure_visible;
                            c.measure_top = a.meas_size_rect.top;
                            c.measure_left = obj.header.xd;
                            c.clef_type = a.clef_type;
                            c.dynamic_type = a.dynamic_type;
                            c.ks_info = a.ks_info;
                            c.time_sig_type = a.time_sig_type;
                            c.numerator = a.numerator;
                            c.denominator = a.denominator;
                            c.visible = c.staff_visible && c.measure_visible;
                            self.contexts.set(k as usize, c);
                        }
                        i = i + 1;
                    }
                    assert(list@.take(list@.len() as int) =~= list@);
                }
            },
            ObjData::Clef(_) => {
                if let Some(list) = score.clefs.get(&key) {
                    let mut i: usize = 0;
                    while i < list.len()
                        invariant
                            i <= list@.len(),
                            self.num_staves == ns,
                            self.contexts@ == fold_subs(ctxs0, ns, list@.take(i as int), staff_of_aclef(), upd_aclef()),
                        decreases list.len() - i,
                    {
                        proof {
                            lemma_fold_subs_len(ctxs0, ns, list@.take(i as int), staff_of_aclef(), upd_aclef());
                            assert(list@.take(i + 1).drop_last() =~= list@.take(i as int));
                        }
                        let a = list[i];
                        let k = a.header.staffn;
                        if 1 <= k && k as usize <= self.num_staves && (k as usize) < self.contexts.len() {
                            let mut c = self.contexts[k as usize];
                            c.clef_type = a.header.sub_type;
                            self.contexts.set(k as usize, c);
                        }
                        i = i + 1;
                    }
                    assert(list@.take(list@.len() as int) =~= list@);
                }
            },
            ObjData::KeySig(_) => {
                if let Some(list) = score.keysigs.get(&key) {
                    let mut i: usize = 0;
                    while i < list.len()
                        invariant
                            i <= list@.len(),
                            self.num_staves == ns,
                            self.contexts@ == fold_subs(ctxs0, ns, list@.take(i as int), staff_of_akeysig(), upd_akeysig()),
                        decreases list.len() - i,
                    {
                        proof {
                            lemma_fold_subs_len(ctxs0, ns, list@.take(i as int), staff_of_akeysig(), upd_akeysig());
                            assert(list@.take(i + 1).drop_last() =~= list@.take(i as int));
                        }
                        let a = list[i];
                        let k = a.header.staffn;
                        if 1 <= k && k as usize <= self.num_staves && (k as usize) < self.contexts.len() {
                            let mut c = self.contexts[k as usize];
                            c.ks_info = a.ks_info;
                            self.contexts.set(k as usize, c);
                        }
                        i = i + 1;
                    }
                    assert(list@.take(list@.len() as int) =~= list@);
                }
            },
            ObjData::TimeSig(timesig) => {
                if let Some(list) = score.timesigs.get(&key) {
                    let ts_type = timesig.header.obj_type;
                    let mut i: usize = 0;
                    while i < list.len()
                        invariant
                            i <= list@.len(),
                            self.num_staves == ns,
                            self.contexts@ == fold_subs(ctxs0, ns, list@.take(i as int), staff_of_atimesig(), upd_atimesig(ts_type)),
                        decreases list.len() - i,
                    {
                        proof {
                            lemma_fold_subs_len(ctxs0, ns, list@.take(i as int), staff_of_atimesig(), upd_atimesig(ts_type));
                            assert(list@.take(i + 1).drop_last() =~= list@.take(i as int));
                        }
                        let a = list[i];
                        let k = a.header.staffn;
                        if 1 <= k && k as usize <= self.num_staves && (k as usize) < self.contexts.len() {
                            let mut c = self.contexts[k as usize];
                            c.time_sig_type = ts_type;
                            c.numerator = a.numerator;
                            c.denominator = a.denominator;
                            self.contexts.set(k as usize, c);
                        }
                        i = i + 1;
                    }
                    assert(list@.take(list@.len() as int) =~= list@);
                }
            },
            ObjData::Dynamic(_) => {
                if let Some(list) = score.dynamics.get(&key) {
                    let mut i: usize = 0;
                    while i < list.len()
                        invariant
                            i <= list@.len(),
                            self.num_staves == ns,
                            self.contexts@ == fold_subs(ctxs0, ns, list@.take(i as int), staff_of_adynamic(), upd_adynamic()),
                        decreases list.len() - i,
                    {
                        proof {
                            lemma_fold_subs_len(ctxs0, ns, list@.take(i as int), staff_of_adynamic(), upd_adynamic());
                            assert(list@.take(i + 1).drop_last() =~= list@.take(i as int));
                        }
                        let a = list[i];
                        let k = a.header.staffn;
                        if 1 <= k && k as usize <= self.num_staves && (k as usize) < self.contexts.len() {
                            let mut c = self.contexts[k as usize];
                            c.dynamic_type = a.header.sub_type;
                            self.contexts.set(k as usize, c);
                        }
                        i = i + 1;
                    }
                    assert(list@.take(list@.len() as int) =~= list@);
                }
            },
            _ => {},
        }
    }

    /// The default context (see `default_context_spec`).
    pub fn default_context() -> (r: Context)
        ensures
            r == default_context_spec(),
    {
        Context {
            visible: true,
            staff_visible: true,
            measure_visible: true,
            in_measure: false,
            paper: Rect { top: 0, left: 0, bottom: 0, right: 0 },
            sheet_num: 0,
            system_num: 0,
            system_top: 0,
            system_left: 0,
            system_bottom: 0,
            staff_top: 0,
            staff_left: 0,
            staff_right: 0,
            staff_height: 0,
            staff_half_height: 0,
            staff_lines: 5,
            show_lines: SHOW_ALL_LINES as i8,
            show_ledgers: true,
            font_size: 0,
            measure_top: 0,
            measure_left: 0,
            clef_type: DFLT_CLEF as i8,
            dynamic_type: DFLT_DYNAMIC as i8,
            ks_info: KsInfo::default(),
            time_sig_type: DFLT_TSTYPE,
            numerator: DFLT_NUMER,
            denominator: DFLT_DENOM,
        }
    }
}

/// The staff count that context is built for: that of the first Staff
/// object with a subobject list, or 1 when there is none.
pub open spec fn context_staff_count(score: InterpretedScore) -> int {
    match score.staff_count_spec() {
        Some(n) => n as int,
        None => 1,
    }
}

/// The context of staff `staff` just before the first object of the walk
/// whose `index` is `target_link` (after the whole walk if there is none),
/// starting from default contexts for `context_staff_count(score)` staves;
/// the default context when the staff has no slot.
pub open spec fn context_at_spec(score: InterpretedScore, target_link: Link, staff: i8) -> Context {
    let ns = context_staff_count(score);
    let st = contexts_after(score, ns, initial_contexts(ns), score.index_pos(target_link, 0));
    if slot_ok(st.len() as int, ns, staff as int) {
        st[staff as int]
    } else {
        default_context_spec()
    }
}

/// The number of staves: that of the first Staff object with a subobject
/// list, or 1 when there is none.
fn count_staves(score: &InterpretedScore) -> (r: usize)
    ensures
        r as int == context_staff_count(*score),
{
    match score.staff_count() {
        Some(n) => n,
        None => 1,
    }
}

/// A copy of a context state.
fn copy_state(st: &ContextState) -> (r: ContextState)
    ensures
        r.contexts@ == st.contexts@,
        r.num_staves == st.num_staves,
{
    let mut contexts: Vec<Context> = Vec::new();
    let mut i: usize = 0;
    while i < st.contexts.len()
        invariant
            i <= st.contexts@.len(),
            contexts@ == st.contexts@.take(i as int),
        decreases st.contexts.len() - i,
    {
        contexts.push(st.contexts[i]);
        i = i + 1;
        assert(contexts@ =~= st.contexts@.take(i as int));
    }
    assert(st.contexts@.take(st.contexts@.len() as int) =~= st.contexts@);
    ContextState { contexts, num_staves: st.num_staves }
}

/// The context of a staff at an object of the score (see `context_at_spec`).
pub fn get_context_at(score: &InterpretedScore, target_link: Link, staff: i8) -> (r: Context)
    ensures
        r == context_at_spec(*score, target_link, staff),
{
    let num_staves = count_staves(score);
    let mut state = ContextState::new(num_staves);
    let ghost ns = num_staves as int;
    let ghost init = initial_contexts(ns);
    let order = score.walk();
    let mut i: usize = 0;
    while i < order.len()
        invariant
            order@ == score.walk_order(),
            i <= order@.len(),
            forall|j: int| 0 <= j < order@.len() ==> (#[trigger] order@[j] as int) < score.objects@.len(),
            score.index_pos(target_link, 0) == score.index_pos(target_link, i as int),
            state.num_staves == num_staves,
            ns == num_staves as int,
            init == initial_contexts(ns),
            num_staves as int == context_staff_count(*score),
            state.contexts@ == contexts_after(*score, ns, init, i as int),
        decreases order.len() - i,
    {
        let obj = &score.objects[order[i] as usize];
        if obj.index == target_link {
            proof {
                lemma_contexts_after_len(*score, ns, init, i as int);
                assert(score.index_pos(target_link, i as int) == i);
            }
            return match state.get(staff) {
                Some(c) => *c,
                None => ContextState::default_context(),
            };
        }
        let ghost before = state.contexts@;
        state.update_from_object(obj, score);
        proof {
            assert(*obj == score.obj_at(score.walk_order()[i as int]));
            assert(contexts_after(*score, ns, init, i + 1) == apply_object(before, ns, *obj, *score));
        }
        i = i + 1;
    }
    proof { lemma_contexts_after_len(*score, ns, init, i as int); }
    match state.get(staff) {
        Some(c) => *c,
        None => ContextState::default_context(),
    }
}

/// `m` has one entry per object of the walk: the object's link and the
/// contexts (for `num_staves` staves) after the walk up to and including it.
pub open spec fn is_context_map(score: InterpretedScore, num_staves: usize, m: Seq<(Link, ContextState)>) -> bool {
    &&& m.len() == score.walk_order().len()
    &&& forall|i: int| 0 <= i < m.len() ==> {
        &&& (#[trigger] m[i]).0 == score.obj_at(score.walk_order()[i]).index
        &&& m[i].1.num_staves == num_staves
        &&& m[i].1.contexts@ == contexts_after(score, num_staves as int, initial_contexts(num_staves as int), i + 1)
    }
}

/// For each object of the walk, its link and the context state just after
/// it, starting from default contexts for `num_staves` staves.
pub fn build_context_map(score: &InterpretedScore, num_staves: usize) -> (r: Vec<(Link, ContextState)>)
    ensures
        is_context_map(*score, num_staves, r@),
{
    let mut map: Vec<(Link, ContextState)> = Vec::new();
    let mut state = ContextState::new(num_staves);
    let ghost ns = num_staves as int;
    let ghost init = initial_contexts(ns);
    let order = score.walk();
    let mut i: usize = 0;
    while i < order.len()
        invariant
            order@ == score.walk_order(),
            i <= order@.len(),
            forall|j: int| 0 <= j < order@.len() ==> (#[trigger] order@[j] as int) < score.objects@.len(),
            state.num_staves == num_staves,
            ns == num_staves as int,
            init == initial_contexts(ns),
            state.contexts@ == contexts_after(*score, ns, init, i as int),
            map@.len() == i,
            forall|j: int| 0 <= j < i ==> {
                &&& (#[trigger] map@[j]).0 == score.obj_at(score.walk_order()[j]).index
                &&& map@[j].1.num_staves == num_staves
                &&& map@[j].1.contexts@ == contexts_after(*score, ns, init, j + 1)
            },
        decreases order.len() - i,
    {
        let obj = &score.objects[order[i] as usize];
        let ghost before = state.contexts@;
        state.update_from_object(obj, score);
        proof {
            assert(*obj == score.obj_at(score.walk_order()[i as int]));
            assert(contexts_after(*score, ns, init, i + 1) == apply_object(before, ns, *obj, *score));
        }
        map.push((obj.index, copy_state(&state)));
        i = i + 1;
    }
    map
}

/// A subobject list names staff `k`.
pub open spec fn names_staff<T>(subs: Seq<T>, staff_of: spec_fn(T) -> int, k: int) -> bool {
    exists|j: int| 0 <= j < subs.len() && staff_of(#[trigger] subs[j]) == k
}

/// Subobjects change only the staves they name: the context of a staff that
/// no subobject names is the same after the list as before it.
pub proof fn lemma_fold_subs_frame<T>(
    ctxs: Seq<Context>,
    ns: int,
    subs: Seq<T>,
    staff_of: spec_fn(T) -> int,
    upd: spec_fn(Context, T) -> Context,
    k: int,
)
    requires
        0 <= k < ctxs.len(),
        !names_staff(subs, staff_of, k),
    ensures
        fold_subs(ctxs, ns, subs, staff_of, upd)[k] == ctxs[k],
    decreases subs.len(),
{
    if subs.len() > 0 {
        let p = subs.drop_last();
        assert(!names_staff(p, staff_of, k)) by {
            if names_staff(p, staff_of, k) {
                let j = choose|j: int| 0 <= j < p.len() && staff_of(#[trigger] p[j]) == k;
                assert(subs[j] == p[j]);
            }
        }
        lemma_fold_subs_frame(ctxs, ns, p, staff_of, upd, k);
        lemma_fold_subs_len(ctxs, ns, p, staff_of, upd);
        assert(staff_of(subs[subs.len() - 1]) != k);
    }
}

/// The last subobject that names a staff decides that staff's context: it
/// is that subobject's update applied to the context the earlier
/// subobjects left.
pub proof fn lemma_fold_subs_last_names<T>(
    ctxs: Seq<Context>,
    ns: int,
    subs: Seq<T>,
    staff_of: spec_fn(T) -> int,
    upd: spec_fn(Context, T) -> Context,
    k: int,
    i: int,
)
    requires
        slot_ok(ctxs.len() as int, ns, k),
        0 <= i < subs.len(),
        staff_of(subs[i]) == k,
        forall|j: int| i < j < subs.len() ==> staff_of(#[trigger] subs[j]) != k,
    ensures
        fold_subs(ctxs, ns, subs, staff_of, upd)[k] == upd(fold_subs(ctxs, ns, subs.take(i), staff_of, upd)[k], subs[i]),
    decreases subs.len(),
{
    let p = subs.drop_last();
    lemma_fold_subs_len(ctxs, ns, p, staff_of, upd);
    if i == subs.len() - 1 {
        assert(p =~= subs.take(i));
    } else {
        assert forall|j: int| i < j < p.len() implies staff_of(#[trigger] p[j]) != k by {
            assert(p[j] == subs[j]);
        }
        assert(p[i] == subs[i]);
        lemma_fold_subs_last_names(ctxs, ns, p, staff_of, upd, k, i);
        assert(p.take(i) =~= subs.take(i));
        assert(staff_of(subs[subs.len() - 1]) != k);
    }
}

/// A dynamic mark sets the dynamic of the staves it names: after a Dynamic
/// object, the context of a staff named by one of its subobjects has the
/// dynamic type of the last subobject on that staff.
pub proof fn lemma_dynamic_sets_staff_dynamic(
    ctxs: Seq<Context>,
    ns: int,
    obj: InterpretedObject,
    score: InterpretedScore,
    k: int,
    i: int,
)
    requires
        obj.data is Dynamic,
        score.dynamics@.contains_key(obj.header.first_sub_obj),
        slot_ok(ctxs.len() as int, ns, k),
        0 <= i < score.dynamics@[obj.header.first_sub_obj]@.len(),
        score.dynamics@[obj.header.first_sub_obj]@[i].header.staffn as int == k,
        forall|j: int| i < j < score.dynamics@[obj.header.first_sub_obj]@.len()
            ==> (#[trigger] score.dynamics@[obj.header.first_sub_obj]@[j]).header.staffn as int != k,
    ensures
        apply_object(ctxs, ns, obj, score)[k].dynamic_type == score.dynamics@[obj.header.first_sub_obj]@[i].header.sub_type,
{
    let subs = score.dynamics@[obj.header.first_sub_obj]@;
    assert forall|j: int| i < j < subs.len() implies (#[trigger] staff_of_adynamic()(subs[j])) != k by {
        assert(subs[j].header.staffn as int != k);
    }
    lemma_fold_subs_last_names(ctxs, ns, subs, staff_of_adynamic(), upd_adynamic(), k, i);
}

/// A clef sets the clef of the staves it names: after a Clef object, the
/// context of a staff named by one of its subobjects has the clef type of
/// the last subobject on that staff.
pub proof fn lemma_clef_sets_staff_clef(
    ctxs: Seq<Context>,
    ns: int,
    obj: InterpretedObject,
    score: InterpretedScore,
    k: int,
    i: int,
)
    requires
        obj.data is Clef,
        score.clefs@.contains_key(obj.header.first_sub_obj),
        slot_ok(ctxs.len() as int, ns, k),
        0 <= i < score.clefs@[obj.header.first_sub_obj]@.len(),
        score.clefs@[obj.header.first_sub_obj]@[i].header.staffn as int == k,
        forall|j: int| i < j < score.clefs@[obj.header.first_sub_obj]@.len()
            ==> (#[trigger] score.clefs@[obj.header.first_sub_obj]@[j]).header.staffn as int != k,
    ensures
        apply_object(ctxs, ns, obj, score)[k].clef_type == score.clefs@[obj.header.first_sub_obj]@[i].header.sub_type,
{
    let subs = score.clefs@[obj.header.first_sub_obj]@;
    assert forall|j: int| i < j < subs.len() implies (#[trigger] staff_of_aclef()(subs[j])) != k by {
        assert(subs[j].header.staffn as int != k);
    }
    lemma_fold_subs_last_names(ctxs, ns, subs, staff_of_aclef(), upd_aclef(), k, i);
}

/// A key signature sets the key of the staves it names: after a KeySig
/// object, the context of a staff named by one of its subobjects has the
/// key signature of the last subobject on that staff.
pub proof fn lemma_keysig_sets_staff_key(
    ctxs: Seq<Context>,
    ns: int,
    obj: InterpretedObject,
    score: InterpretedScore,
    k: int,
    i: int,
)
    requires
        obj.data is KeySig,
        score.keysigs@.contains_key(obj.header.first_sub_obj),
        slot_ok(ctxs.len() as int, ns, k),
        0 <= i < score.keysigs@[obj.header.first_sub_obj]@.len(),
        score.keysigs@[obj.header.first_sub_obj]@[i].header.staffn as int == k,
        forall|j: int| i < j < score.keysigs@[obj.header.first_sub_obj]@.len()
            ==> (#[trigger] score.keysigs@[obj.header.first_sub_obj]@[j]).header.staffn as int != k,
    ensures
        apply_object(ctxs, ns, obj, score)[k].ks_info == score.keysigs@[obj.header.first_sub_obj]@[i].ks_info,
{
    let subs = score.keysigs@[obj.header.first_sub_obj]@;
    assert forall|j: int| i < j < subs.len() implies (#[trigger] staff_of_akeysig()(subs[j])) != k by {
        assert(subs[j].header.staffn as int != k);
    }
    lemma_fold_subs_last_names(ctxs, ns, subs, staff_of_akeysig(), upd_akeysig(), k, i);
}

/// A time signature sets the meter of the staves it names: after a TimeSig
/// object, the context of a staff named by one of its subobjects has the
/// object's time signature type and the numerator and denominator of the
/// last subobject on that staff.
pub proof fn lemma_timesig_sets_staff_meter(
    ctxs: Seq<Context>,
    ns: int,
    obj: InterpretedObject,
    score: InterpretedScore,
    k: int,
    i: int,
)
    requires
        obj.data is TimeSig,
        score.timesigs@.contains_key(obj.header.first_sub_obj),
        slot_ok(ctxs.len() as int, ns, k),
        0 <= i < score.timesigs@[obj.header.first_sub_obj]@.len(),
        score.timesigs@[obj.header.first_sub_obj]@[i].header.staffn as int == k,
        forall|j: int| i < j < score.timesigs@[obj.header.first_sub_obj]@.len()
            ==> (#[trigger] score.timesigs@[obj.header.first_sub_obj]@[j]).header.staffn as int != k,
    ensures
        ({
            let c = apply_object(ctxs, ns, obj, score)[k];
            let a = score.timesigs@[obj.header.first_sub_obj]@[i];
            &&& c.time_sig_type == (obj.data->TimeSig_0).header.obj_type
            &&& c.numerator == a.numerator
            &&& c.denominator == a.denominator
        }),
{
    let subs = score.timesigs@[obj.header.first_sub_obj]@;
    let ts = obj.data->TimeSig_0;
    assert forall|j: int| i < j < subs.len() implies (#[trigger] staff_of_atimesig()(subs[j])) != k by {
        assert(subs[j].header.staffn as int != k);
    }
    lemma_fold_subs_last_names(ctxs, ns, subs, staff_of_atimesig(), upd_atimesig(ts.header.obj_type), k, i);
}

/// An object keeps the number of context slots.
pub proof fn lemma_apply_object_keeps_slots(ctxs: Seq<Context>, ns: int, obj: InterpretedObject, score: InterpretedScore)
    ensures
        apply_object(ctxs, ns, obj, score).len() == ctxs.len(),
{
    lemma_apply_object_len(ctxs, ns, obj, score);
}

/// The context map and the context at an object agree: when object `j + 1`
/// of the walk is the first with its link, the context that
/// `get_context_at` gives there is the one the map records after object `j`
/// for the same staff count.
pub proof fn lemma_context_map_matches_context_at(score: InterpretedScore, j: int, staff: i8)
    requires
        0 <= j,
        j + 1 < score.walk_order().len(),
        score.index_pos(score.obj_at(score.walk_order()[j + 1]).index, 0) == j + 1,
    ensures
        ({
            let ns = context_staff_count(score);
            let st = contexts_after(score, ns, initial_contexts(ns), j + 1);
            context_at_spec(score, score.obj_at(score.walk_order()[j + 1]).index, staff)
                == if slot_ok(st.len() as int, ns, staff as int) { st[staff as int] } else { default_context_spec() }
        }),
{
}

/// The context map and `get_context_at` agree: for a map built with the
/// score's own staff count, the context that `get_context_at` gives at the
/// link of entry `j + 1` (the first object of the walk with that link) is
/// the one entry `j` records for the staff, or the default context for a
/// staff out of range.
pub proof fn lemma_context_map_entries_match_context_at(
    score: InterpretedScore,
    m: Seq<(Link, ContextState)>,
    j: int,
    staff: i8,
)
    requires
        is_context_map(score, context_staff_count(score) as usize, m),
        context_staff_count(score) <= usize::MAX,
        0 <= j,
        j + 1 < m.len(),
        score.index_pos(m[j + 1].0, 0) == j + 1,
    ensures
        context_at_spec(score, m[j + 1].0, staff) == if slot_ok(m[j].1.contexts@.len() as int, context_staff_count(score), staff as int) {
            m[j].1.contexts@[staff as int]
        } else {
            default_context_spec()
        },
{
    assert(m[j + 1].0 == score.obj_at(score.walk_order()[j + 1]).index);
    assert(m[j].1.contexts@ == contexts_after(score, context_staff_count(score), initial_contexts(context_staff_count(score)), j + 1));
    lemma_context_map_matches_context_at(score, j, staff);
}

} // verus!
