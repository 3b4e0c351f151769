use nightingale_core::basic_types::{FmsDestinationMatch, KsInfo, PartInfo, NILINK, Rect};
use nightingale_core::midi::export::{
    bpm_to_microseconds, calculate_velocity, code_to_ldur, dynamic_to_velocity, encode_vlq,
    get_l2p_durs, write_be16, write_be32, yqpit_to_midi_note, MidiEvent, TimedEvent,
};
use nightingale_core::midi::{export_to_midi, MidiExporter};
use nightingale_core::score::{
    ANote, Dynamic, InterpretedObject, InterpretedScore, Measure, ObjData, ObjectHeader, SubObjHeader,
    Sync, Tempo,
};

#[test]
fn export_test_l2p_durs_table() {
    let table = get_l2p_durs();
    assert_eq!(table[1], 3840);
    assert_eq!(table[2], 1920);
    assert_eq!(table[3], 960);
    assert_eq!(table[4], 480);
    assert_eq!(table[5], 240);
    assert_eq!(table[6], 120);
    assert_eq!(table[7], 60);
    assert_eq!(table[8], 30);
    assert_eq!(table[9], 15);
}

#[test]
fn test_code_to_ldur_simple() {
    assert_eq!(code_to_ldur(4, 0), 480);
    assert_eq!(code_to_ldur(5, 0), 240);
    assert_eq!(code_to_ldur(3, 0), 960);
}

#[test]
fn test_code_to_ldur_dotted() {
    assert_eq!(code_to_ldur(4, 1), 720);
    assert_eq!(code_to_ldur(3, 1), 1440);
    assert_eq!(code_to_ldur(4, 2), 840);
}

#[test]
fn test_code_to_ldur_edge_cases() {
    assert_eq!(code_to_ldur(0, 0), 3840);
    assert_eq!(code_to_ldur(10, 0), 15);
    let result = code_to_ldur(9, 5);
    assert!(result > 0);
}

#[test]
fn test_midi_exporter_new() {
    let exporter = MidiExporter::new();
    assert_eq!(exporter.default_tempo, 120);
    assert!(exporter.timed_events.is_empty());
}

#[test]
fn test_midi_exporter_set_tempo() {
    let mut exporter = MidiExporter::new();
    exporter.set_tempo(140);
    assert_eq!(exporter.default_tempo, 140);
}

#[test]
fn test_bpm_to_microseconds() {
    assert_eq!(bpm_to_microseconds(120), 500_000);
    assert_eq!(bpm_to_microseconds(60), 1_000_000);
    assert_eq!(bpm_to_microseconds(240), 250_000);
    assert_eq!(bpm_to_microseconds(0), 500_000);
    assert_eq!(bpm_to_microseconds(200), 300_000);
}

#[test]
fn test_yqpit_to_midi_note_middle_c() {
    let middle_c = yqpit_to_midi_note(0, 0);
    assert_eq!(middle_c, Some(60));
}

#[test]
fn test_yqpit_to_midi_note_scale() {
    assert_eq!(yqpit_to_midi_note(0, 0), Some(60));
    assert_eq!(yqpit_to_midi_note(2, 0), Some(62));
    assert_eq!(yqpit_to_midi_note(4, 0), Some(64));
    assert_eq!(yqpit_to_midi_note(6, 0), Some(65));
    assert_eq!(yqpit_to_midi_note(8, 0), Some(67));
    assert_eq!(yqpit_to_midi_note(10, 0), Some(69));
    assert_eq!(yqpit_to_midi_note(12, 0), Some(71));
    assert_eq!(yqpit_to_midi_note(14, 0), Some(72));
}

#[test]
fn test_yqpit_to_midi_note_with_accidental() {
    assert_eq!(yqpit_to_midi_note(0, 4), Some(61));
    assert_eq!(yqpit_to_midi_note(0, 2), Some(59));
    assert_eq!(yqpit_to_midi_note(0, 5), Some(62));
    assert_eq!(yqpit_to_midi_note(0, 1), Some(58));
}

#[test]
fn test_yqpit_to_midi_note_octaves() {
    assert_eq!(yqpit_to_midi_note(-14, 0), Some(48));
    assert_eq!(yqpit_to_midi_note(14, 0), Some(72));
    assert_eq!(yqpit_to_midi_note(-28, 0), Some(36));
}

#[test]
fn test_yqpit_to_midi_note_out_of_range() {
    assert_eq!(yqpit_to_midi_note(127, 0), None);
    assert_eq!(yqpit_to_midi_note(-128, 0), None);
}

#[test]
fn test_calculate_velocity_simple() {
    assert_eq!(calculate_velocity(100, 0, None), 100);
}

#[test]
fn test_calculate_velocity_with_document_offset() {
    assert_eq!(calculate_velocity(100, 20, None), 120);
    assert_eq!(calculate_velocity(100, -30, None), 70);
}

#[test]
fn test_calculate_velocity_with_part_velocity() {
    assert_eq!(calculate_velocity(100, 0, Some(15)), 115);
    assert_eq!(calculate_velocity(100, 10, Some(15)), 125);
}

#[test]
fn test_calculate_velocity_clamping() {
    assert_eq!(calculate_velocity(127, 50, Some(50)), 127);
    assert_eq!(calculate_velocity(5, -100, None), 1);
    assert_eq!(calculate_velocity(0, 0, None), 1);
}

#[test]
fn test_dynamic_to_velocity_common_dynamics() {
    assert_eq!(dynamic_to_velocity(1), 20);
    assert_eq!(dynamic_to_velocity(2), 32);
    assert_eq!(dynamic_to_velocity(3), 45);
    assert_eq!(dynamic_to_velocity(4), 64);
    assert_eq!(dynamic_to_velocity(5), 80);
    assert_eq!(dynamic_to_velocity(6), 96);
    assert_eq!(dynamic_to_velocity(7), 112);
    assert_eq!(dynamic_to_velocity(8), 120);
    assert_eq!(dynamic_to_velocity(9), 126);
    assert_eq!(dynamic_to_velocity(10), 127);
}

#[test]
fn test_dynamic_to_velocity_special_marks() {
    assert_eq!(dynamic_to_velocity(15), 115);
    assert_eq!(dynamic_to_velocity(16), 116);
    assert_eq!(dynamic_to_velocity(17), 118);
    assert_eq!(dynamic_to_velocity(20), 100);
}

#[test]
fn test_dynamic_to_velocity_hairpins() {
    assert_eq!(dynamic_to_velocity(22), 96);
    assert_eq!(dynamic_to_velocity(23), 96);
}

#[test]
fn test_dynamic_to_velocity_invalid() {
    assert_eq!(dynamic_to_velocity(0), 96);
    assert_eq!(dynamic_to_velocity(-1), 96);
    assert_eq!(dynamic_to_velocity(24), 96);
    assert_eq!(dynamic_to_velocity(127), 96);
}

#[test]
fn vlq_encoding_values() {
    assert_eq!(encode_vlq(0), vec![0x00]);
    assert_eq!(encode_vlq(0x7F), vec![0x7F]);
    assert_eq!(encode_vlq(0x80), vec![0x81, 0x00]);
    assert_eq!(encode_vlq(0x3FFF), vec![0xFF, 0x7F]);
    assert_eq!(encode_vlq(0x4000), vec![0x81, 0x80, 0x00]);
    assert_eq!(encode_vlq(0x0FFF_FFFF), vec![0xFF, 0xFF, 0xFF, 0x7F]);
}

#[test]
fn vlq_round_trip_on_samples() {
    for v in [0u32, 1, 127, 128, 300, 16383, 16384, 2_097_151, 2_097_152, u32::MAX] {
        let bytes = encode_vlq(v);
        let mut value: u64 = 0;
        for (i, b) in bytes.iter().enumerate() {
            value = value * 128 + (b & 0x7F) as u64;
            if i + 1 < bytes.len() {
                assert!(b & 0x80 != 0);
            } else {
                assert!(b & 0x80 == 0);
            }
        }
        assert_eq!(value, v as u64);
    }
}

#[test]
fn big_endian_writers_round_trip() {
    assert_eq!(write_be32(0x1234_5678), [0x12, 0x34, 0x56, 0x78]);
    assert_eq!(write_be16(0xABCD), [0xAB, 0xCD]);
    let b = write_be32(480);
    assert_eq!(u32::from_be_bytes(b), 480);
}

fn header(right: u16, first_sub_obj: u16, obj_type: i8) -> ObjectHeader {
    ObjectHeader {
        right,
        left: NILINK,
        first_sub_obj,
        xd: 0,
        yd: 0,
        obj_type,
        selected: false,
        visible: true,
        soft: false,
        valid: true,
        tweaked: false,
        spare_flag: false,
        ohdr_filler1: 0,
        obj_rect: Rect { top: 0, left: 0, bottom: 0, right: 0 },
        rel_size: 0,
        ohdr_filler2: 0,
        n_entries: 1,
    }
}

fn part(channel: u8, first_staff: i8, last_staff: i8) -> PartInfo {
    PartInfo {
        next: NILINK,
        part_velocity: 0,
        first_staff,
        patch_num: 5,
        last_staff,
        channel,
        transpose: 0,
        lo_key_num: 0,
        hi_key_num: 127,
        name: [0; 32],
        short_name: [0; 12],
        hi_key_name: 0,
        hi_key_acc: 0,
        tran_name: 0,
        tran_acc: 0,
        lo_key_name: 0,
        lo_key_acc: 0,
        bank_number0: 0,
        bank_number32: 0,
        fms_output_device: [0; 4],
        fms_output_destination: FmsDestinationMatch { data: [0; 280] },
    }
}

fn note(staffn: i8, note_num: u8, play_dur: i16, rest: bool) -> ANote {
    ANote {
        header: SubObjHeader { next: NILINK, staffn, sub_type: 4, selected: false, visible: true, soft: false },
        rest,
        note_num,
        ndots: 0,
        accident: 0,
        play_time_delta: 0,
        play_dur,
        on_velocity: 64,
        voice: 1,
        yd: 0,
        ystem: 0,
        other_stem_side: false,
        tied_l: false,
        tied_r: false,
        slurred_l: false,
        slurred_r: false,
    }
}

/// A score with one part on staff 1: a measure at time 960, a tempo of 60
/// BPM, and a sync 240 ticks in with a note (C4, 480 ticks) and a rest.
fn small_score() -> InterpretedScore {
    let mut score = InterpretedScore::new();
    let placeholder = InterpretedObject { index: 0, header: header(NILINK, NILINK, 0), data: ObjData::Other(header(NILINK, NILINK, 0)) };
    let measure = InterpretedObject {
        index: 1,
        header: header(2, NILINK, 7),
        data: ObjData::Measure(Measure { header: header(2, NILINK, 7), l_time_stamp: 960 }),
    };
    let tempo = InterpretedObject {
        index: 2,
        header: header(3, NILINK, 20),
        data: ObjData::Tempo(Tempo { header: header(3, NILINK, 20), tempo_mm: 60, no_mm: false }),
    };
    let sync = InterpretedObject {
        index: 3,
        header: header(NILINK, 50, 2),
        data: ObjData::Sync(Sync { header: header(NILINK, 50, 2), time_stamp: 240 }),
    };
    score.objects = vec![placeholder, measure, tempo, sync];
    score.head_l = 1;
    score.notes.insert(50, vec![note(1, 60, 480, false), note(1, 62, 480, true)]);
    score.part_infos = vec![part(0, 1, 1)];
    score
}

#[test]
fn export_orders_events_by_time() {
    let score = small_score();
    let mut exporter = MidiExporter::new();
    exporter.export(&score);
    let times: Vec<u32> = exporter.timed_events.iter().map(|e| e.time).collect();
    assert_eq!(times, vec![0, 0, 960, 1200, 1680]);
    assert!(matches!(exporter.timed_events[0].event, MidiEvent::SetTempo { tempo_us: 500_000 }));
    assert!(matches!(exporter.timed_events[1].event, MidiEvent::ProgramChange { channel: 0, program: 5 }));
    assert!(matches!(exporter.timed_events[2].event, MidiEvent::SetTempo { tempo_us: 1_000_000 }));
    assert!(matches!(exporter.timed_events[3].event, MidiEvent::NoteOn { channel: 0, note: 60, velocity: 96 }));
    assert!(matches!(exporter.timed_events[4].event, MidiEvent::NoteOff { channel: 0, note: 60 }));
}

#[test]
fn stable_order_keeps_generation_order_at_equal_times() {
    let mut exporter = MidiExporter::new();
    exporter.timed_events = vec![
        TimedEvent { time: 5, event: MidiEvent::NoteOff { channel: 0, note: 1 } },
    ];
    let score = small_score();
    exporter.export(&score);
    let times: Vec<u32> = exporter.timed_events.iter().map(|e| e.time).collect();
    assert_eq!(times, vec![0, 0, 5, 960, 1200, 1680]);
    assert!(matches!(exporter.timed_events[0].event, MidiEvent::SetTempo { .. }));
    assert!(matches!(exporter.timed_events[1].event, MidiEvent::ProgramChange { .. }));
}

#[test]
fn smf_of_small_score() {
    let score = small_score();
    let bytes = export_to_midi(&score);
    let mut expected: Vec<u8> = Vec::new();
    expected.extend_from_slice(b"MThd");
    expected.extend_from_slice(&[0, 0, 0, 6, 0, 1, 0, 2, 0x01, 0xE0]);
    // Track 0: tempo 500000 at 0, tempo 1000000 at 960.
    let t0: Vec<u8> = vec![
        0x00, 0xFF, 0x51, 0x03, 0x07, 0xA1, 0x20,
        0x87, 0x40, 0xFF, 0x51, 0x03, 0x0F, 0x42, 0x40,
        0x00, 0xFF, 0x2F, 0x00,
    ];
    expected.extend_from_slice(b"MTrk");
    expected.extend_from_slice(&(t0.len() as u32).to_be_bytes());
    expected.extend_from_slice(&t0);
    // Track 1 (channel 0): program at 0, note on at 1200, note off at 1680.
    let t1: Vec<u8> = vec![
        0x00, 0xC0, 0x05,
        0x89, 0x30, 0x90, 60, 96,
        0x83, 0x60, 0x80, 60, 0,
        0x00, 0xFF, 0x2F, 0x00,
    ];
    expected.extend_from_slice(b"MTrk");
    expected.extend_from_slice(&(t1.len() as u32).to_be_bytes());
    expected.extend_from_slice(&t1);
    assert_eq!(bytes, expected);
}

#[test]
fn smf_of_empty_exporter_has_only_track_zero() {
    let exporter = MidiExporter::new();
    let bytes = exporter.to_smf();
    let mut expected: Vec<u8> = Vec::new();
    expected.extend_from_slice(b"MThd");
    expected.extend_from_slice(&[0, 0, 0, 6, 0, 1, 0, 1, 0x01, 0xE0]);
    expected.extend_from_slice(b"MTrk");
    expected.extend_from_slice(&[0, 0, 0, 4, 0x00, 0xFF, 0x2F, 0x00]);
    assert_eq!(bytes, expected);
}

#[test]
fn key_signature_with_flats() {
    let mut ks = KsInfo::default();
    ks.n_ks_items = 3;
    ks.ks_item[0].sharp = 0;
    assert_eq!(nightingale_core::midi::export::ks_info_to_midi_sf(&ks), -3);
    ks.ks_item[0].sharp = 1;
    assert_eq!(nightingale_core::midi::export::ks_info_to_midi_sf(&ks), 3);
}

#[test]
fn dynamic_mark_sets_velocity_of_later_notes() {
    let mut score = small_score();
    // tempo (2) -> dynamic pp (4) -> sync (3)
    score.objects[2].header.right = 4;
    let dyn_header = header(3, NILINK, 13);
    score.objects.push(InterpretedObject { index: 4, header: dyn_header, data: ObjData::Dynamic(Dynamic { header: dyn_header, dynamic_type: 3 }) });
    score.part_infos[0].part_velocity = 10;
    let mut exporter = MidiExporter::new();
    exporter.export(&score);
    // pp is velocity 45, plus the part's 10
    assert!(matches!(exporter.timed_events[3].event, MidiEvent::NoteOn { channel: 0, note: 60, velocity: 55 }));
    assert_eq!(calculate_velocity(dynamic_to_velocity(3), 0, Some(10)), 55);
}
