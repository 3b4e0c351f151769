use nightingale_core::basic_types::{DRect, KsInfo, Link, Rect, NILINK};
use nightingale_core::context::{build_context_map, get_context_at, ContextState};
use nightingale_core::defs::{
    ALTO_CLEF, BASS_CLEF, CLEF_TYPE, DFLT_CLEF, DFLT_DENOM, DFLT_DYNAMIC, DFLT_NUMER, KEYSIG_TYPE,
    SYSTEM_TYPE, TIMESIG_TYPE, TREBLE_CLEF,
};
use nightingale_core::score::{
    AClef, AKeySig, ATimeSig, Clef, InterpretedObject, InterpretedScore, KeySig, ObjData,
    ObjectHeader, SubObjHeader, System, TimeSig,
};

/// Create a basic ObjectHeader for testing
fn make_header(index: Link, obj_type: u8) -> ObjectHeader {
    ObjectHeader {
        right: if index == 1 { NILINK } else { index + 1 },
        left: if index == 1 { NILINK } else { index - 1 },
        first_sub_obj: NILINK,
        xd: 0,
        yd: 0,
        obj_type: obj_type as i8,
        selected: false,
        visible: true,
        soft: false,
        valid: true,
        tweaked: false,
        spare_flag: false,
        ohdr_filler1: 0,
        obj_rect: Rect {
            top: 0,
            left: 0,
            bottom: 100,
            right: 100,
        },
        rel_size: 0,
        ohdr_filler2: 0,
        n_entries: 1,
    }
}

#[test]
fn test_context_state_new() {
    let state = ContextState::new(2);

    // Check that we have 3 contexts (slot 0 + 2 staves)
    assert_eq!(state.contexts.len(), 3);
    assert_eq!(state.num_staves, 2);

    // Check that staves 1 and 2 have default context
    let ctx1 = state.get(1).unwrap();
    assert_eq!(ctx1.clef_type, DFLT_CLEF as i8);
    assert_eq!(ctx1.numerator, DFLT_NUMER);
    assert_eq!(ctx1.denominator, DFLT_DENOM);
    assert_eq!(ctx1.dynamic_type, DFLT_DYNAMIC as i8);

    let ctx2 = state.get(2).unwrap();
    assert_eq!(ctx2.clef_type, DFLT_CLEF as i8);

    // Check that out-of-range staff returns None
    assert!(state.get(0).is_none());
    assert!(state.get(3).is_none());
}

#[test]
fn test_context_system_update() {
    let mut state = ContextState::new(2);
    let score = InterpretedScore::new();

    // Create a System object
    let system = System {
        header: make_header(1, SYSTEM_TYPE),
        l_system: NILINK,
        r_system: NILINK,
        page_l: NILINK,
        system_num: 1,
        system_rect: DRect {
            top: 100,
            left: 50,
            bottom: 500,
            right: 400,
        },
        sys_desc_ptr: 0,
    };

    let obj = InterpretedObject {
        index: 1,
        header: system.header.clone(),
        data: ObjData::System(system),
    };

    // Update context from System
    state.update_from_object(&obj, &score);

    // Check that both staves got updated with system geometry
    let ctx1 = state.get(1).unwrap();
    assert_eq!(ctx1.system_num, 1);
    assert_eq!(ctx1.system_top, 100);
    assert_eq!(ctx1.system_left, 50);
    assert_eq!(ctx1.system_bottom, 500);

    let ctx2 = state.get(2).unwrap();
    assert_eq!(ctx2.system_num, 1);
    assert_eq!(ctx2.system_top, 100);
}

#[test]
fn test_context_clef_update() {
    let mut state = ContextState::new(2);
    let mut score = InterpretedScore::new();

    // Create a Clef object with subobjects
    let clef = Clef {
        header: make_header(2, CLEF_TYPE),
        in_measure: true,
    };

    // Create AClef subobjects
    let aclef1 = AClef {
        header: SubObjHeader {
            next: NILINK,
            staffn: 1,
            sub_type: BASS_CLEF as i8, // Change staff 1 to bass clef
            selected: false,
            visible: true,
            soft: false,
        },
        filler1: 0,
        small: 0,
        filler2: 0,
        xd: 0,
        yd: 0,
    };

    let aclef2 = AClef {
        header: SubObjHeader {
            next: NILINK,
            staffn: 2,
            sub_type: ALTO_CLEF as i8, // Change staff 2 to alto clef
            selected: false,
            visible: true,
            soft: false,
        },
        filler1: 0,
        small: 0,
        filler2: 0,
        xd: 0,
        yd: 0,
    };

    score
        .clefs
        .insert(clef.header.first_sub_obj, vec![aclef1, aclef2]);

    let obj = InterpretedObject {
        index: 2,
        header: clef.header.clone(),
        data: ObjData::Clef(clef),
    };

    // Update context from Clef
    state.update_from_object(&obj, &score);

    // Check that clefs were updated
    let ctx1 = state.get(1).unwrap();
    assert_eq!(ctx1.clef_type, BASS_CLEF as i8);

    let ctx2 = state.get(2).unwrap();
    assert_eq!(ctx2.clef_type, ALTO_CLEF as i8);
}

#[test]
fn test_context_timesig_update() {
    let mut state = ContextState::new(1);
    let mut score = InterpretedScore::new();

    // Create a TimeSig object
    let mut header = make_header(3, TIMESIG_TYPE);
    header.first_sub_obj = 100; // Link to subobject

    let timesig = TimeSig {
        header: header.clone(),
        in_measure: true,
    };

    // Create ATimeSig subobject for 3/4 time
    let atimesig = ATimeSig {
        header: SubObjHeader {
            next: NILINK,
            staffn: 1,
            sub_type: 0,
            selected: false,
            visible: true,
            soft: false,
        },
        filler: 0,
        small: 0,
        conn_staff: 0,
        xd: 0,
        yd: 0,
        numerator: 3,
        denominator: 4,
    };

    score.timesigs.insert(100, vec![atimesig]);

    let obj = InterpretedObject {
        index: 3,
        header,
        data: ObjData::TimeSig(timesig),
    };

    // Update context from TimeSig
    state.update_from_object(&obj, &score);

    // Check that time signature was updated
    let ctx = state.get(1).unwrap();
    assert_eq!(ctx.numerator, 3);
    assert_eq!(ctx.denominator, 4);
}

#[test]
fn test_context_keysig_update() {
    let mut state = ContextState::new(1);
    let mut score = InterpretedScore::new();

    // Create a KeySig object
    let mut header = make_header(4, KEYSIG_TYPE);
    header.first_sub_obj = 200;

    let keysig = KeySig {
        header: header.clone(),
        in_measure: false,
    };

    // Create AKeySig subobject with 2 sharps (D major)
    let ks_info = KsInfo {
        n_ks_items: 2,
        ..KsInfo::default()
    };

    let akeysig = AKeySig {
        header: SubObjHeader {
            next: NILINK,
            staffn: 1,
            sub_type: 0,
            selected: false,
            visible: true,
            soft: false,
        },
        nonstandard: 0,
        filler1: 0,
        small: 0,
        filler2: 0,
        xd: 0,
        ks_info,
    };

    score.keysigs.insert(200, vec![akeysig]);

    let obj = InterpretedObject {
        index: 4,
        header,
        data: ObjData::KeySig(keysig),
    };

    // Update context from KeySig
    state.update_from_object(&obj, &score);

    // Check that key signature was updated
    let ctx = state.get(1).unwrap();
    assert_eq!(ctx.ks_info.n_ks_items, 2);
}

#[test]
fn test_context_propagation() {
    let mut state = ContextState::new(1);
    let mut score = InterpretedScore::new();

    // Start with default treble clef
    let ctx = state.get(1).unwrap();
    assert_eq!(ctx.clef_type, TREBLE_CLEF as i8);

    // Add a bass clef change
    let mut clef_header = make_header(5, CLEF_TYPE);
    clef_header.first_sub_obj = 300;

    let clef = Clef {
        header: clef_header.clone(),
        in_measure: true,
    };

    let aclef = AClef {
        header: SubObjHeader {
            next: NILINK,
            staffn: 1,
            sub_type: BASS_CLEF as i8,
            selected: false,
            visible: true,
            soft: false,
        },
        filler1: 0,
        small: 0,
        filler2: 0,
        xd: 0,
        yd: 0,
    };

    score.clefs.insert(300, vec![aclef]);

    let obj = InterpretedObject {
        index: 5,
        header: clef_header,
        data: ObjData::Clef(clef),
    };

    state.update_from_object(&obj, &score);

    // Clef should now be bass
    let ctx = state.get(1).unwrap();
    assert_eq!(ctx.clef_type, BASS_CLEF as i8);
}


fn astaff(staffn: i8, clef_type: i8) -> nightingale_core::score::AStaff {
    nightingale_core::score::AStaff {
        next: NILINK,
        staffn,
        selected: false,
        visible: true,
        filler_stf: false,
        staff_top: 100 * staffn as i16,
        staff_left: 0,
        staff_right: 4000,
        staff_height: 385,
        staff_lines: 5,
        show_lines: 15,
        show_ledgers: 1,
        font_size: 24,
        flag_leading: 0,
        min_stem_free: 0,
        ledger_width: 96,
        note_head_width: 96,
        frac_beam_width: 48,
        space_below: 0,
        filler: 0,
        clef_type,
        dynamic_type: 6,
        ks_info: KsInfo::default(),
        time_sig_type: 1,
        numerator: 3,
        denominator: 8,
    }
}

/// Objects: 0 unused, 1 Staff (two staves), 2 Clef (staff 1 to bass), 3 System.
fn walk_score() -> InterpretedScore {
    let mut score = InterpretedScore::new();
    let mut h0 = make_header(0, 0);
    h0.right = NILINK;
    let mut h1 = make_header(1, 6);
    h1.right = 2;
    h1.first_sub_obj = 10;
    let mut h2 = make_header(2, CLEF_TYPE);
    h2.right = 3;
    h2.first_sub_obj = 20;
    let mut h3 = make_header(3, SYSTEM_TYPE);
    h3.right = NILINK;
    score.objects = vec![
        InterpretedObject { index: 0, header: h0, data: ObjData::Other(h0) },
        InterpretedObject { index: 1, header: h1, data: ObjData::Staff(nightingale_core::score::Staff { header: h1, l_staff: NILINK, r_staff: NILINK, system_l: NILINK }) },
        InterpretedObject { index: 2, header: h2, data: ObjData::Clef(Clef { header: h2, in_measure: true }) },
        InterpretedObject {
            index: 3,
            header: h3,
            data: ObjData::System(System {
                header: h3,
                l_system: NILINK,
                r_system: NILINK,
                page_l: NILINK,
                system_num: 2,
                system_rect: DRect { top: 10, left: 20, bottom: 30, right: 40 },
                sys_desc_ptr: 0,
            }),
        },
    ];
    score.head_l = 1;
    score.staffs.insert(10, vec![astaff(1, TREBLE_CLEF as i8), astaff(2, ALTO_CLEF as i8)]);
    score.clefs.insert(
        20,
        vec![AClef {
            header: SubObjHeader { next: NILINK, staffn: 1, sub_type: BASS_CLEF as i8, selected: false, visible: true, soft: false },
            filler1: 0,
            small: 0,
            filler2: 0,
            xd: 0,
            yd: 0,
        }],
    );
    score
}

#[test]
fn context_at_follows_the_walk() {
    let score = walk_score();
    let before_clef = get_context_at(&score, 2, 1);
    assert_eq!(before_clef.clef_type, TREBLE_CLEF as i8);
    assert_eq!(before_clef.staff_height, 385);
    assert_eq!(before_clef.staff_half_height, 192);
    assert_eq!(before_clef.numerator, 3);
    let after_clef = get_context_at(&score, 3, 1);
    assert_eq!(after_clef.clef_type, BASS_CLEF as i8);
    let staff2 = get_context_at(&score, 3, 2);
    assert_eq!(staff2.clef_type, ALTO_CLEF as i8);
    let at_end = get_context_at(&score, 99, 2);
    assert_eq!(at_end.system_num, 2);
    assert_eq!(at_end.system_top, 10);
    let no_staff = get_context_at(&score, 3, 3);
    assert_eq!(no_staff.clef_type, DFLT_CLEF as i8);
}

#[test]
fn context_map_has_one_state_per_object() {
    let score = walk_score();
    let map = build_context_map(&score, 2);
    assert_eq!(map.len(), 3);
    assert_eq!(map[0].0, 1);
    assert_eq!(map[1].0, 2);
    assert_eq!(map[2].0, 3);
    assert_eq!(map[0].1.get(1).unwrap().clef_type, TREBLE_CLEF as i8);
    assert_eq!(map[1].1.get(1).unwrap().clef_type, BASS_CLEF as i8);
    assert_eq!(map[2].1.get(2).unwrap().system_num, 2);
}

#[test]
fn get_mut_changes_only_its_staff() {
    let mut state = ContextState::new(2);
    if let Some(c) = state.get_mut(2) {
        c.numerator = 7;
    }
    assert_eq!(state.get(2).unwrap().numerator, 7);
    assert_eq!(state.get(1).unwrap().numerator, DFLT_NUMER);
    assert!(state.get_mut(0).is_none());
    assert!(state.get_mut(3).is_none());
}
