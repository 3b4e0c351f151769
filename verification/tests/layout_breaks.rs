use nightingale_core::basic_types::{DRect, KsInfo, Link, Rect, NILINK};
use nightingale_core::layout::{
    append_page_object, collect_measures, extract_preamble, find_max_sub_link, fix_preamble_positions,
    fix_staff_geometry, fix_system_geometry_at, group_measures_into_systems, insert_system_breaks,
    LayoutConfig,
};
use nightingale_core::score::{
    AClef, AKeySig, ANote, AStaff, ATimeSig, Clef, InterpretedObject, InterpretedScore, KeySig, Measure,
    ObjData, ObjectHeader, Page, Staff, SubObjHeader, Sync, System, TimeSig,
};

fn header(obj_type: i8, left: Link, right: Link, first_sub_obj: Link) -> ObjectHeader {
    ObjectHeader {
        right,
        left,
        first_sub_obj,
        xd: 0,
        yd: 0,
        obj_type,
        selected: false,
        visible: true,
        soft: false,
        valid: true,
        tweaked: false,
        spare_flag: false,
        ohdr_filler1: 0,
        obj_rect: Rect { top: 0, left: 0, bottom: 0, right: 0 },
        rel_size: 0,
        ohdr_filler2: 0,
        n_entries: 1,
    }
}

fn sub(staffn: i8, sub_type: i8) -> SubObjHeader {
    SubObjHeader { next: NILINK, staffn, sub_type, selected: false, visible: true, soft: false }
}

fn staff(clef_type: i8) -> AStaff {
    AStaff {
        next: NILINK,
        staffn: 1,
        selected: false,
        visible: true,
        filler_stf: false,
        staff_top: 7,
        staff_left: 7,
        staff_right: 7,
        staff_height: 7,
        staff_lines: 5,
        show_lines: 15,
        show_ledgers: 1,
        font_size: 24,
        flag_leading: 7,
        min_stem_free: 0,
        ledger_width: 7,
        note_head_width: 7,
        frac_beam_width: 7,
        space_below: 7,
        filler: 0,
        clef_type,
        dynamic_type: 0,
        ks_info: KsInfo::default(),
        time_sig_type: 1,
        numerator: 4,
        denominator: 4,
    }
}

fn note(dur: i8, ndots: u8) -> ANote {
    ANote {
        header: sub(1, dur),
        rest: false,
        note_num: 60,
        ndots,
        accident: 0,
        play_time_delta: 0,
        play_dur: 0,
        on_velocity: 64,
        voice: 1,
        yd: 0,
        ystem: 0,
        other_stem_side: false,
        tied_l: false,
        tied_r: false,
        slurred_l: false,
        slurred_r: false,
    }
}

fn obj(index: Link, h: ObjectHeader, data: ObjData) -> InterpretedObject {
    InterpretedObject { index, header: h, data }
}

/// 0 Header (unused: link 0 is no link), 1 Page, 2 System, 3 Staff, 4 Clef, 5 KeySig, 6 TimeSig,
/// 7 Measure, 8 Sync (quarter), 9 Sync (dotted eighth), 10 Measure,
/// 11 Sync (half), 12 Tail; every Sync at time 0.
fn one_system_score() -> InterpretedScore {
    let mut score = InterpretedScore::new();
    let h = |t: i8, i: Link, s: Link| header(t, if i == 0 { NILINK } else { i - 1 }, if i == 12 { NILINK } else { i + 1 }, s);
    score.objects = vec![
        obj(0, h(0, 0, 0), ObjData::Header(h(0, 0, 0))),
        obj(1, h(4, 1, 0), ObjData::Page(Page { header: h(4, 1, 0), l_page: NILINK, r_page: NILINK, sheet_num: 0, header_str_offset: 0, footer_str_offset: 0 })),
        obj(2, h(5, 2, 0), ObjData::System(System {
            header: h(5, 2, 0),
            l_system: NILINK,
            r_system: NILINK,
            page_l: 1,
            system_num: 1,
            system_rect: DRect { top: 0, left: 0, bottom: 0, right: 0 },
            sys_desc_ptr: 0,
        })),
        obj(3, h(6, 3, 10), ObjData::Staff(Staff { header: h(6, 3, 10), l_staff: NILINK, r_staff: NILINK, system_l: 2 })),
        obj(4, h(8, 4, 20), ObjData::Clef(Clef { header: h(8, 4, 20), in_measure: false })),
        obj(5, h(9, 5, 30), ObjData::KeySig(KeySig { header: h(9, 5, 30), in_measure: false })),
        obj(6, h(10, 6, 40), ObjData::TimeSig(TimeSig { header: h(10, 6, 40), in_measure: false })),
        obj(7, h(7, 7, 50), ObjData::Measure(Measure { header: h(7, 7, 50), l_time_stamp: 0 })),
        obj(8, h(2, 8, 60), ObjData::Sync(Sync { header: h(2, 8, 60), time_stamp: 0 })),
        obj(9, h(2, 9, 61), ObjData::Sync(Sync { header: h(2, 9, 61), time_stamp: 0 })),
        obj(10, h(7, 10, 0), ObjData::Measure(Measure { header: h(7, 10, 0), l_time_stamp: 960 })),
        obj(11, h(2, 11, 62), ObjData::Sync(Sync { header: h(2, 11, 62), time_stamp: 0 })),
        obj(12, h(1, 12, 0), ObjData::Tail(h(1, 12, 0))),
    ];
    score.head_l = 1;
    score.staffs.insert(10, vec![staff(1)]);
    score.clefs.insert(20, vec![AClef { header: sub(1, 10), filler1: 0, small: 0, filler2: 0, xd: 0, yd: 0 }]);
    let mut ks = KsInfo::default();
    ks.n_ks_items = 2;
    score.keysigs.insert(30, vec![AKeySig { header: sub(1, 0), nonstandard: 0, filler1: 0, small: 0, filler2: 0, xd: 0, ks_info: ks }]);
    score.timesigs.insert(40, vec![ATimeSig { header: sub(1, 1), filler: 0, small: 0, conn_staff: 0, xd: 0, yd: 0, numerator: 3, denominator: 8 }]);
    score.notes.insert(60, vec![note(4, 0)]);
    score.notes.insert(61, vec![note(5, 1), note(4, 0)]);
    score.notes.insert(62, vec![note(3, 0)]);
    score
}

#[test]
fn preamble_is_gathered_up_to_the_first_measure() {
    let score = one_system_score();
    let p = extract_preamble(&score).unwrap();
    assert_eq!(p.num_staves, 1);
    assert_eq!(p.clef_types, vec![10]);
    assert_eq!(p.ks_info.n_ks_items, 2);
    assert_eq!((p.time_num, p.time_denom), (3, 8));
    assert!(!p.has_connect);
    assert_eq!((p.page_link, p.system_link, p.tail_link), (1, 2, 12));
}

#[test]
fn preamble_without_staves_is_none() {
    let mut score = one_system_score();
    score.staffs.remove(&10);
    assert!(extract_preamble(&score).is_none());
}

#[test]
fn measures_are_collected_with_estimated_times() {
    let score = one_system_score();
    let ms = collect_measures(&score);
    assert_eq!(ms.len(), 2);
    assert_eq!((ms[0].obj_link, ms[0].last_link), (7, 9));
    assert_eq!(ms[0].sync_links, vec![8, 9]);
    // all zero: a quarter (480), then the shortest of a dotted eighth (360) and a quarter
    assert_eq!(ms[0].sync_times, vec![0, 480]);
    assert_eq!(ms[0].sync_note_infos[1], vec![(5, 1, false, 0), (4, 0, false, 0)]);
    assert_eq!((ms[1].obj_link, ms[1].last_link), (10, 11));
    assert_eq!(ms[1].sync_times, vec![0]);
}

#[test]
fn stored_times_are_kept() {
    let mut score = one_system_score();
    score.objects[9].data = ObjData::Sync(Sync { header: score.objects[9].header, time_stamp: 240 });
    let ms = collect_measures(&score);
    assert_eq!(ms[0].sync_times, vec![0, 240]);
}

#[test]
fn max_sub_link_is_the_last_list_end() {
    let score = one_system_score();
    // notes at 61 hold two entries: 61 + 2 = 63
    assert_eq!(find_max_sub_link(&score), 63);
    assert_eq!(find_max_sub_link(&InterpretedScore::new()), 0);
}

#[test]
fn staff_geometry_follows_the_config() {
    let mut score = one_system_score();
    score.staffs.insert(70, vec![staff(1), staff(3)]);
    let c = LayoutConfig::default();
    fix_staff_geometry(&mut score, &c);
    let s = &score.staffs[&70];
    assert_eq!((s[0].staff_top, s[1].staff_top), (0, 960));
    assert_eq!((s[1].staff_left, s[1].staff_right, s[1].staff_height), (0, 7776, 384));
    assert_eq!((s[1].ledger_width, s[1].note_head_width, s[1].frac_beam_width, s[1].flag_leading), (96, 96, 48, 0));
    assert_eq!(s[1].space_below, 960 - 384);
    assert_eq!(s[1].clef_type, 3);
    assert_eq!(score.staffs.len(), 2);
}

#[test]
fn first_system_gets_its_rectangle() {
    let mut score = one_system_score();
    let p = extract_preamble(&score).unwrap();
    let c = LayoutConfig::default();
    fix_system_geometry_at(&mut score, &c, &p, 1);
    match score.objects[2].data {
        ObjData::System(sys) => {
            assert_eq!(sys.system_rect, DRect { top: 1152 + 2800, left: 1152, bottom: 1152 + 2800 + 384, right: 8928 });
        },
        _ => panic!("not a system"),
    }
}

#[test]
fn preamble_objects_are_positioned() {
    let mut score = one_system_score();
    let c = LayoutConfig::default();
    fix_preamble_positions(&mut score, &c);
    assert_eq!(score.objects[4].header.xd, 96);
    assert_eq!(score.objects[5].header.xd, 96 + 336);
    // two accidentals: 9 * 2 * 384 / 32 + 96 = 312
    assert_eq!(score.objects[6].header.xd, 96 + 336 + 312);
    assert_eq!(score.objects[8].header.xd, 0);
}

#[test]
fn measures_are_grouped_greedily() {
    let mut c = LayoutConfig::default();
    let w = vec![3000, 3000, 3000, 3000, 3000];
    assert_eq!(group_measures_into_systems(&w, &c, 7000, 6500), vec![(0, 2), (2, 4), (4, 5)]);
    // a measure wider than the system still gets one to itself
    let w2 = vec![9000, 100, 100];
    assert_eq!(group_measures_into_systems(&w2, &c, 7000, 7000), vec![(0, 1), (1, 3)]);
    c.max_measures = 1;
    assert_eq!(group_measures_into_systems(&w2, &c, 7000, 7000), vec![(0, 1), (1, 2), (2, 3)]);
    assert_eq!(group_measures_into_systems(&Vec::new(), &c, 7000, 7000), Vec::<(usize, usize)>::new());
}

#[test]
fn page_object_is_appended_and_linked() {
    let mut score = one_system_score();
    let l = append_page_object(&mut score, 1, 9, 1);
    assert_eq!(l, 13);
    assert_eq!(score.objects[13].header.left, 9);
    match score.objects[13].data {
        ObjData::Page(p) => assert_eq!((p.l_page, p.r_page, p.sheet_num), (1, NILINK, 1)),
        _ => panic!("not a page"),
    }
    match score.objects[1].data {
        ObjData::Page(p) => assert_eq!(p.r_page, 13),
        _ => panic!("not a page"),
    }
}

#[test]
fn second_system_is_spliced_in() {
    let mut score = one_system_score();
    let c = LayoutConfig::default();
    let p = extract_preamble(&score).unwrap();
    let ms = collect_measures(&score);
    insert_system_breaks(&mut score, &c, &p, &ms, &vec![(0, 1), (1, 2)], 4);
    // System 13, Staff 14, Clef 15, KeySig 16
    assert_eq!(score.objects.len(), 17);
    assert_eq!(score.objects[9].header.right, 13);
    assert_eq!(score.objects[13].header.left, 9);
    assert_eq!(score.objects[16].header.right, 10);
    assert_eq!(score.objects[10].header.left, 16);
    assert_eq!(score.objects[11].header.right, 12);
    assert_eq!(score.objects[12].header.left, 11);
    match (score.objects[2].data, score.objects[13].data) {
        (ObjData::System(a), ObjData::System(b)) => {
            assert_eq!((a.l_system, a.r_system, a.system_num), (NILINK, 13, 1));
            assert_eq!((b.l_system, b.r_system, b.system_num), (2, NILINK, 2));
            assert_eq!(b.page_l, 1);
            // second row of the page
            assert_eq!(b.system_rect.top, 1152 + 2800);
        },
        _ => panic!("not systems"),
    }
    // the new lists start 100 past the highest key in use (63)
    assert_eq!(score.objects[14].header.first_sub_obj, 163);
    assert_eq!(score.staffs[&163].len(), 1);
    assert_eq!(score.clefs[&164][0].header.sub_type, 10);
    assert_eq!(score.keysigs[&165][0].ks_info.n_ks_items, 2);
}

#[test]
fn new_page_comes_before_a_system_at_the_top_of_a_page() {
    let mut score = one_system_score();
    let c = LayoutConfig::default();
    let p = extract_preamble(&score).unwrap();
    let ms = collect_measures(&score);
    insert_system_breaks(&mut score, &c, &p, &ms, &vec![(0, 1), (1, 2)], 1);
    // Page 13, System 14, Staff 15, Clef 16, KeySig 17
    assert_eq!(score.objects.len(), 18);
    assert_eq!(score.objects[9].header.right, 13);
    assert_eq!(score.objects[13].header.right, 14);
    assert_eq!(score.objects[14].header.left, 13);
    assert_eq!(score.objects[17].header.right, 10);
    match score.objects[14].data {
        ObjData::System(b) => {
            assert_eq!(b.page_l, 13);
            assert_eq!(b.system_rect.top, 1152);
        },
        _ => panic!("not a system"),
    }
}

#[test]
fn single_system_changes_nothing() {
    let mut score = one_system_score();
    let c = LayoutConfig::default();
    let p = extract_preamble(&score).unwrap();
    let ms = collect_measures(&score);
    insert_system_breaks(&mut score, &c, &p, &ms, &vec![(0, 2)], 4);
    assert_eq!(score.objects, one_system_score().objects);
}
