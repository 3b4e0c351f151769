use nightingale_core::basic_types::{Rect, NILINK};
use nightingale_core::draw::draw_nrgr::{get_modnr_info, FERMATA_ABOVE, FERMATA_BELOW, MOD_CIRCLE, MOD_FERMATA, MOD_STACCATO, STACCATO_BELOW};
use nightingale_core::draw::draw_object::find_slur_note;
use nightingale_core::score::{InterpretedObject, ObjData, ObjectHeader, Sync};
use nightingale_core::draw::draw_nrgr::{chord_note_to_left, find_stem_down, ledger_lines_for_note};
use nightingale_core::draw::draw_object::{
    default_font_for_type, ending_label, get_oct_type_info, map_barline_type, map_mac_font_name,
    parse_header_footer_template, should_draw_meas_num, sonata_italic_digit, tempo_glyph,
    BarLineType, GraphicType, MusicGlyph,
};
use nightingale_core::draw::draw_utils::{
    accidental_glyph, clef_glyph, clef_halfline_position, flag_glyph, get_ks_y_offset,
    is_music_font_name, notehead_glyph, notehead_glyph_for_duration, resolve_rest_l_dur,
    rest_glyph_for_duration, sonata_char_to_smufl, utf8_char_to_mac_roman,
    utf8_music_char_to_smufl, REST_Y_OFFSET,
};
use nightingale_core::score::{AMeasure, ANote, InterpretedScore, SubObjHeader};
use nightingale_core::basic_types::{DRect, KsInfo};

#[test]
fn notehead_glyphs() {
    assert_eq!(notehead_glyph_for_duration(1), 0xE0A0);
    assert_eq!(notehead_glyph_for_duration(2), 0xE0A2);
    assert_eq!(notehead_glyph_for_duration(3), 0xE0A3);
    assert_eq!(notehead_glyph_for_duration(4), 0xE0A4);
    assert_eq!(notehead_glyph(2, 2), 0xE0A7);
    assert_eq!(notehead_glyph(2, 5), 0xE0A9);
    assert_eq!(notehead_glyph(3, 1), 0xE0D2);
    assert_eq!(notehead_glyph(9, 4), 0);
    assert_eq!(notehead_glyph(1, 3), 0xE0A3);
}

#[test]
fn rest_glyphs() {
    assert_eq!(resolve_rest_l_dur(-3), 2);
    assert_eq!(resolve_rest_l_dur(0), 1);
    assert_eq!(resolve_rest_l_dur(5), 5);
    assert_eq!(rest_glyph_for_duration(1), 0xE4E2);
    assert_eq!(rest_glyph_for_duration(9), 0xE4EA);
    assert_eq!(rest_glyph_for_duration(12), 0xE4E5);
    assert_eq!(REST_Y_OFFSET[5], -1);
}

#[test]
fn accidental_clef_and_flag_glyphs() {
    assert_eq!(accidental_glyph(1), Some(0xE264));
    assert_eq!(accidental_glyph(4), Some(0xE262));
    assert_eq!(accidental_glyph(0), None);
    assert_eq!(clef_glyph(3), 0xE050);
    assert_eq!(clef_glyph(6), 0xE05C);
    assert_eq!(clef_glyph(10), 0xE062);
    assert_eq!(clef_glyph(2), 0xE050);
    assert_eq!(clef_halfline_position(3), 6);
    assert_eq!(clef_halfline_position(9), 0);
    assert_eq!(clef_halfline_position(10), 2);
    assert_eq!(flag_glyph(5, true), Some(0xE240));
    assert_eq!(flag_glyph(6, false), Some(0xE243));
    assert_eq!(flag_glyph(4, true), None);
}

#[test]
fn key_signature_offsets() {
    assert_eq!(get_ks_y_offset(3, 0, true), 0);
    assert_eq!(get_ks_y_offset(3, 6, true), -1);
    assert_eq!(get_ks_y_offset(3, 4, false), 4);
    assert_eq!(get_ks_y_offset(10, 0, false), 9);
    assert_eq!(get_ks_y_offset(6, 6, true), 0);
    assert_eq!(get_ks_y_offset(3, -1, true), -1);
    assert_eq!(get_ks_y_offset(3, 9, false), 6);
}

#[test]
fn music_font_names() {
    assert!(is_music_font_name("Sonata"));
    assert!(is_music_font_name("Opus Std"));
    assert!(!is_music_font_name("Times"));
    assert!(!is_music_font_name("sonata"));
}

#[test]
fn mac_roman_round_trip() {
    assert_eq!(utf8_char_to_mac_roman('A'), Some(0x41));
    assert_eq!(utf8_char_to_mac_roman('\u{00C4}'), Some(0x80));
    assert_eq!(utf8_char_to_mac_roman('\u{02C7}'), Some(0xFF));
    assert_eq!(utf8_char_to_mac_roman('\u{4E00}'), None);
    assert_eq!(utf8_music_char_to_smufl('&'), Some(0xE050));
    assert_eq!(utf8_music_char_to_smufl('\u{00FB}'), Some(0xE048));
    assert_eq!(utf8_music_char_to_smufl(' '), None);
    assert_eq!(sonata_char_to_smufl(0x71), Some(0xE1D5));
}

#[test]
fn ledger_lines() {
    assert_eq!(ledger_lines_for_note(-48, 384), vec![]);
    assert_eq!(ledger_lines_for_note(-96, 384), vec![-2]);
    assert_eq!(ledger_lines_for_note(-200, 384), vec![-2, -4]);
    assert_eq!(ledger_lines_for_note(200, 384), vec![]);
    assert_eq!(ledger_lines_for_note(480, 384), vec![10]);
    assert_eq!(ledger_lines_for_note(600, 384), vec![10, 12]);
}

fn note(staffn: i8, voice: i8, yd: i16, ystem: i16, rest: bool, other: bool) -> ANote {
    ANote {
        header: SubObjHeader { next: NILINK, staffn, sub_type: 4, selected: false, visible: true, soft: false },
        rest,
        note_num: 60,
        ndots: 0,
        accident: 0,
        play_time_delta: 0,
        play_dur: 480,
        on_velocity: 64,
        voice,
        yd,
        ystem,
        other_stem_side: other,
        tied_l: false,
        tied_r: false,
        slurred_l: false,
        slurred_r: false,
    }
}

#[test]
fn stem_direction_of_chord_notes() {
    let main_down = note(1, 1, 10, 50, false, false);
    let plain = note(1, 1, 20, 20, false, true);
    let list = vec![plain, main_down];
    assert!(find_stem_down(&plain, &list));
    assert!(chord_note_to_left(&plain, &list));
    let up = note(1, 1, 50, 10, false, false);
    let list2 = vec![up, plain];
    assert!(!find_stem_down(&plain, &list2));
    assert!(!chord_note_to_left(&plain, &list2));
    let lone = note(2, 1, 10, 40, false, false);
    assert!(find_stem_down(&lone, &[]));
    assert!(!chord_note_to_left(&lone, &[]));
}

#[test]
fn header_footer_templates() {
    let (l, c, r) = parse_header_footer_template("Left\x01Page #\x01Right", 12);
    assert_eq!(l, "Left");
    assert_eq!(c, "Page 12");
    assert_eq!(r, "Right");
    let (l, c, r) = parse_header_footer_template("", 3);
    assert_eq!((l.as_str(), c.as_str(), r.as_str()), ("", "", ""));
    let (l, c, r) = parse_header_footer_template("#", -7);
    assert_eq!((l.as_str(), c.as_str(), r.as_str()), ("-7", "", ""));
    let (l, c, r) = parse_header_footer_template("a\x01b\x01c\x01d", 1);
    assert_eq!((l.as_str(), c.as_str(), r.as_str()), ("a", "b", "c"));
}

#[test]
fn barline_types() {
    assert_eq!(map_barline_type(1), BarLineType::Single);
    assert_eq!(map_barline_type(2), BarLineType::Double);
    assert_eq!(map_barline_type(3), BarLineType::FinalDouble);
    assert_eq!(map_barline_type(4), BarLineType::Single);
    assert_eq!(map_barline_type(7), BarLineType::RepeatBoth);
}

fn ameasure(staffn: i8, measure_num: i16, reserved_m: i8) -> AMeasure {
    AMeasure {
        header: SubObjHeader { next: NILINK, staffn, sub_type: 1, selected: false, visible: true, soft: false },
        measure_visible: true,
        meas_size_rect: DRect { top: 0, left: 0, bottom: 0, right: 0 },
        clef_type: 3,
        dynamic_type: 6,
        ks_info: KsInfo::default(),
        time_sig_type: 1,
        numerator: 4,
        denominator: 4,
        measure_num,
        reserved_m,
    }
}

#[test]
fn measure_number_rules() {
    let mut score = InterpretedScore::new();
    assert!(!should_draw_meas_num(&score, &ameasure(1, 4, 0), 1, 2, true));
    score.number_meas = 2;
    score.first_mn_number = 1;
    score.above_mn = true;
    assert!(should_draw_meas_num(&score, &ameasure(1, 3, 0), 1, 2, false));
    assert!(!should_draw_meas_num(&score, &ameasure(1, 2, 0), 1, 2, false));
    assert!(!should_draw_meas_num(&score, &ameasure(2, 3, 0), 1, 2, false));
    assert!(!should_draw_meas_num(&score, &ameasure(1, 3, -1), 1, 2, false));
    score.number_meas = -1;
    assert!(should_draw_meas_num(&score, &ameasure(1, 5, 0), 1, 2, true));
    assert!(!should_draw_meas_num(&score, &ameasure(1, 5, 0), 1, 2, false));
    score.first_mn_number = 0;
    assert!(!should_draw_meas_num(&score, &ameasure(1, 1, 0), 1, 2, true));
    score.start_mn_print1 = true;
    assert!(should_draw_meas_num(&score, &ameasure(1, 1, 0), 1, 2, true));
}

#[test]
fn font_names() {
    assert_eq!(map_mac_font_name("Times"), "Times New Roman");
    assert_eq!(map_mac_font_name("Geneva"), "Helvetica");
    assert_eq!(map_mac_font_name("Sonata"), "Helvetica");
    assert_eq!(map_mac_font_name("Monaco"), "Courier");
    assert_eq!(map_mac_font_name("Palatino Linotype"), "Palatino");
    assert_eq!(map_mac_font_name("Optima"), "Optima");
    assert_eq!(default_font_for_type(&GraphicType::GrChordSym), "Helvetica");
    assert_eq!(default_font_for_type(&GraphicType::GrLyric), "Times New Roman");
    assert_eq!(default_font_for_type(&GraphicType::GrString), "Times New Roman");
}

#[test]
fn tempo_ottava_and_endings() {
    assert_eq!(tempo_glyph(1), Some(MusicGlyph::Smufl(0xE0A0)));
    assert_eq!(tempo_glyph(4), Some(MusicGlyph::Smufl(0xE1D5)));
    assert_eq!(tempo_glyph(9), Some(MusicGlyph::Smufl(0xE1DF)));
    assert_eq!(tempo_glyph(0), None);
    assert_eq!(get_oct_type_info(1), (8, false));
    assert_eq!(get_oct_type_info(5), (15, true));
    assert_eq!(get_oct_type_info(9), (0, false));
    assert_eq!(sonata_italic_digit(0), 0xBC);
    assert_eq!(sonata_italic_digit(9), 0xBB);
    assert_eq!(sonata_italic_digit(12), 0xBC);
    assert_eq!(ending_label(1), "1.");
    assert_eq!(ending_label(3), "1. 2.");
    assert_eq!(ending_label(4), "1. 2. 3.");
    assert_eq!(ending_label(12), "12.");
    assert_eq!(ending_label(0), "0.");
}

#[test]
fn staff_count_of_empty_score() {
    let score = InterpretedScore::new();
    assert_eq!(nightingale_core::draw::helpers::count_staves(&score), 0);
}

#[test]
fn modifier_glyphs_and_offsets() {
    assert_eq!(get_modnr_info(MOD_FERMATA, true, false), Some((FERMATA_ABOVE, -5, 4, 1000)));
    assert_eq!(get_modnr_info(MOD_FERMATA, false, true), Some((FERMATA_BELOW, -5, -4, 750)));
    assert_eq!(get_modnr_info(MOD_STACCATO, false, false), Some((STACCATO_BELOW, 4, 0, 1000)));
    assert_eq!(get_modnr_info(MOD_CIRCLE, true, true), Some((0xE614, 2, 0, 1125)));
    assert_eq!(get_modnr_info(MOD_CIRCLE, true, false), Some((0xE614, 2, 0, 1500)));
    assert_eq!(get_modnr_info(3, true, false), None);
    assert_eq!(get_modnr_info(26, true, false), None);
    assert_eq!(get_modnr_info(31, true, false), Some((0xE56E, -6, 4, 1000)));
    assert_eq!(get_modnr_info(99, true, false), None);
}

#[test]
fn slur_note_is_the_flagged_one_else_the_first_of_its_voice() {
    let h = |t: i8, sub: u16| ObjectHeader {
        right: NILINK,
        left: NILINK,
        first_sub_obj: sub,
        xd: 0,
        yd: 0,
        obj_type: t,
        selected: false,
        visible: true,
        soft: false,
        valid: true,
        tweaked: false,
        spare_flag: false,
        ohdr_filler1: 0,
        obj_rect: Rect { top: 0, left: 0, bottom: 0, right: 0 },
        rel_size: 0,
        ohdr_filler2: 0,
        n_entries: 3,
    };
    let mut score = InterpretedScore::new();
    score.objects = vec![
        InterpretedObject { index: 0, header: h(0, 0), data: ObjData::Other(h(0, 0)) },
        InterpretedObject { index: 1, header: h(2, 5), data: ObjData::Sync(Sync { header: h(2, 5), time_stamp: 0 }) },
    ];
    let plain = note(1, 1, 10, 10, false, false);
    let mut starts = note(1, 1, 20, 20, false, false);
    starts.slurred_r = true;
    let mut ends = note(1, 2, 30, 30, false, false);
    ends.slurred_l = true;
    score.notes.insert(5, vec![plain, starts, ends]);
    assert_eq!(find_slur_note(&score, 1, 1, true), Some(starts));
    assert_eq!(find_slur_note(&score, 1, 1, false), Some(plain));
    assert_eq!(find_slur_note(&score, 1, 2, false), Some(ends));
    assert_eq!(find_slur_note(&score, 1, 3, true), None);
    assert_eq!(find_slur_note(&score, 0, 1, true), None);
    assert_eq!(find_slur_note(&score, 9, 1, true), None);
}

#[test]
fn sonata_dynamics_map_to_their_smufl_marks() {
    assert_eq!(sonata_char_to_smufl(0xB8), Some(0xE52A));
    assert_eq!(sonata_char_to_smufl(0xB9), Some(0xE52B));
    assert_eq!(sonata_char_to_smufl(0x70), Some(0xE520));
    assert_eq!(sonata_char_to_smufl(0xC4), Some(0xE52F));
    assert_eq!(utf8_music_char_to_smufl('\u{03C0}'), Some(0xE52B));
}

#[test]
fn omega_and_ohm_share_byte_0xbd() {
    assert_eq!(utf8_char_to_mac_roman('\u{03A9}'), Some(0xBD));
    assert_eq!(utf8_char_to_mac_roman('\u{2126}'), Some(0xBD));
}

#[test]
fn every_mac_roman_byte_survives_decoding_and_encoding() {
    for b in 0u8..=255 {
        let s = nightingale_core::text::mac_roman_to_string(&[b]);
        let c = s.chars().next().unwrap();
        assert_eq!(utf8_char_to_mac_roman(c), Some(b));
    }
}
