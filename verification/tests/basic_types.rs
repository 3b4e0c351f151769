use nightingale_core::basic_types::{
    DPoint, DRect, Ddist, Heap, KsInfo, Link, LongDdist, LongStdist, NamesType, ObjectType, Qdist,
    ShortDdist, ShortQd, ShortStd, Stdist, StringOffset, TsInfo, VoiceInfo, WindowType,
    MAX_KSITEMS, MAX_NAMES_TYPE, NILINK, STD_LINEHT,
};
use nightingale_core::defs::{HIGH_TYPE, LOW_TYPE};

#[test]
fn test_type_sizes() {
    assert_eq!(std::mem::size_of::<Ddist>(), 2, "DDIST should be 2 bytes");
    assert_eq!(std::mem::size_of::<LongDdist>(), 4, "LONGDDIST should be 4 bytes");
    assert_eq!(std::mem::size_of::<Stdist>(), 2, "STDIST should be 2 bytes");
    assert_eq!(std::mem::size_of::<LongStdist>(), 4, "LONGSTDIST should be 4 bytes");
    assert_eq!(std::mem::size_of::<Qdist>(), 2, "QDIST should be 2 bytes");
    assert_eq!(std::mem::size_of::<ShortStd>(), 1, "SHORTSTD should be 1 byte");
    assert_eq!(std::mem::size_of::<ShortQd>(), 1, "SHORTQD should be 1 byte");
    assert_eq!(std::mem::size_of::<ShortDdist>(), 1, "SHORTDDIST should be 1 byte");
    assert_eq!(std::mem::size_of::<Link>(), 2, "LINK should be 2 bytes");
    assert_eq!(std::mem::size_of::<StringOffset>(), 4, "STRINGOFFSET should be 4 bytes");
}

#[test]
fn test_dpoint_default() {
    let p = DPoint::default();
    assert_eq!(p.v, 0);
    assert_eq!(p.h, 0);
}

#[test]
fn test_drect_default() {
    let r = DRect::default();
    assert_eq!(r.top, 0);
    assert_eq!(r.left, 0);
    assert_eq!(r.bottom, 0);
    assert_eq!(r.right, 0);
}

#[test]
fn test_dpoint_copy() {
    let p1 = DPoint { v: 100, h: 200 };
    let p2 = p1;
    assert_eq!(p1.v, p2.v);
    assert_eq!(p1.h, p2.h);
}

#[test]
fn test_drect_equality() {
    let r1 = DRect { top: 10, left: 20, bottom: 30, right: 40 };
    let r2 = DRect { top: 10, left: 20, bottom: 30, right: 40 };
    assert_eq!(r1, r2);
}

#[test]
fn test_std_lineht_constant() {
    assert_eq!(STD_LINEHT, 8, "STD_LINEHT must be 8");
}

#[test]
fn test_nilink_constant() {
    assert_eq!(NILINK, 0, "NILINK must be 0");
}

#[test]
fn test_object_type_values() {
    assert_eq!(ObjectType::Header as u16, 0);
    assert_eq!(ObjectType::Tail as u16, 1);
    assert_eq!(ObjectType::Sync as u16, 2);
    assert_eq!(ObjectType::BeamSet as u16, 11);
    assert_eq!(ObjectType::Slur as u16, 17);
    assert_eq!(ObjectType::Obj as u16, 24);
}

#[test]
fn test_object_type_from_u16() {
    assert_eq!(ObjectType::from_u16(0), Some(ObjectType::Header));
    assert_eq!(ObjectType::from_u16(2), Some(ObjectType::Sync));
    assert_eq!(ObjectType::from_u16(17), Some(ObjectType::Slur));
    assert_eq!(ObjectType::from_u16(24), Some(ObjectType::Obj));
    assert_eq!(ObjectType::from_u16(99), None);
}

#[test]
fn test_low_high_type_constants() {
    assert_eq!(LOW_TYPE, 0);
    assert_eq!(HIGH_TYPE, 25);
}

#[test]
fn test_ksinfo_default() {
    let ks = KsInfo::default();
    assert_eq!(ks.n_ks_items, 0);
    assert_eq!(ks.ks_item.len(), MAX_KSITEMS);
}

#[test]
fn test_tsinfo_default() {
    let ts = TsInfo::default();
    assert_eq!(ts.ts_type, 0);
    assert_eq!(ts.numerator, 0);
    assert_eq!(ts.denominator, 0);
}

#[test]
fn test_voiceinfo_default() {
    let vi = VoiceInfo::default();
    assert_eq!(vi.partn, 0);
    assert_eq!(vi.voice_role, 0);
    assert_eq!(vi.rel_voice, 0);
}

#[test]
fn test_heap_struct_fields() {
    let heap = Heap {
        block: 0,
        obj_size: 64,
        obj_type: 2,
        first_free: NILINK,
        n_objs: 100,
        n_free: 50,
        lock_level: 0,
    };
    assert_eq!(heap.obj_size, 64);
    assert_eq!(heap.obj_type, 2);
    assert_eq!(heap.n_objs, 100);
    assert_eq!(heap.n_free, 50);
}

#[test]
fn test_window_type_values() {
    assert_eq!(WindowType::Detail.as_u8(), 1);
    assert_eq!(WindowType::Palette.as_u8(), 2);
    assert_eq!(WindowType::Keyboard.as_u8(), 3);
}

#[test]
fn test_names_type_values() {
    assert_eq!(NamesType::NoNames.as_u8(), 0);
    assert_eq!(NamesType::AbbrevNames.as_u8(), 1);
    assert_eq!(NamesType::FullNames.as_u8(), 2);
    assert_eq!(MAX_NAMES_TYPE, 2);
}

#[test]
fn test_max_ksitems_constant() {
    assert_eq!(MAX_KSITEMS, 7, "Standard key signatures use at most 7 sharps/flats");
}

#[test]
fn object_type_codes_round_trip() {
    for code in 0u16..25 {
        let t = ObjectType::from_u16(code).unwrap();
        assert_eq!(t as u16, code);
    }
    assert_eq!(ObjectType::from_u16(25), None);
}
