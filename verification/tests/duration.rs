use nightingale_core::defs::{
    EIGHTH_L_DUR, HALF_L_DUR, ONE28TH_L_DUR, QTR_L_DUR, SIXTEENTH_L_DUR, SIXTY4TH_L_DUR,
    THIRTY2ND_L_DUR, WHOLE_L_DUR, BREVE_L_DUR,
};
use nightingale_core::duration::{
    beat_l_dur, beats_dur, beats_per_measure, code_to_l_dur, measure_dur, simple_l_dur, L2P_DURS,
    PDURUNIT, WHOLE_NOTE_PDUR,
};

#[test]
fn duration_test_l2p_durs_table() {
    assert_eq!(L2P_DURS[ONE28TH_L_DUR as usize], PDURUNIT);
    assert_eq!(L2P_DURS[WHOLE_L_DUR as usize], WHOLE_NOTE_PDUR);
    assert_eq!(L2P_DURS[SIXTY4TH_L_DUR as usize] * 2, L2P_DURS[THIRTY2ND_L_DUR as usize]);
    assert_eq!(L2P_DURS[THIRTY2ND_L_DUR as usize] * 2, L2P_DURS[SIXTEENTH_L_DUR as usize]);
    assert_eq!(L2P_DURS[SIXTEENTH_L_DUR as usize] * 2, L2P_DURS[EIGHTH_L_DUR as usize]);
    assert_eq!(L2P_DURS[EIGHTH_L_DUR as usize] * 2, L2P_DURS[QTR_L_DUR as usize]);
    assert_eq!(L2P_DURS[QTR_L_DUR as usize] * 2, L2P_DURS[HALF_L_DUR as usize]);
    assert_eq!(L2P_DURS[HALF_L_DUR as usize] * 2, L2P_DURS[WHOLE_L_DUR as usize]);
}

#[test]
fn test_code_to_l_dur_undotted() {
    assert_eq!(code_to_l_dur(WHOLE_L_DUR, 0), 1920);
    assert_eq!(code_to_l_dur(HALF_L_DUR, 0), 960);
    assert_eq!(code_to_l_dur(QTR_L_DUR, 0), 480);
    assert_eq!(code_to_l_dur(EIGHTH_L_DUR, 0), 240);
    assert_eq!(code_to_l_dur(SIXTEENTH_L_DUR, 0), 120);
    assert_eq!(code_to_l_dur(THIRTY2ND_L_DUR, 0), 60);
    assert_eq!(code_to_l_dur(SIXTY4TH_L_DUR, 0), 30);
    assert_eq!(code_to_l_dur(ONE28TH_L_DUR, 0), 15);
}

#[test]
fn test_code_to_l_dur_dotted() {
    assert_eq!(code_to_l_dur(QTR_L_DUR, 1), 720);
    assert_eq!(code_to_l_dur(HALF_L_DUR, 1), 1440);
    assert_eq!(code_to_l_dur(EIGHTH_L_DUR, 1), 360);
    assert_eq!(code_to_l_dur(QTR_L_DUR, 2), 840);
    assert_eq!(code_to_l_dur(HALF_L_DUR, 2), 1680);
}

#[test]
fn test_simple_l_dur() {
    assert_eq!(simple_l_dur(QTR_L_DUR, 0), 480);
    assert_eq!(simple_l_dur(QTR_L_DUR, 1), 720);
    assert_eq!(simple_l_dur(HALF_L_DUR, 0), 960);
    assert_eq!(simple_l_dur(WHOLE_L_DUR, 0), 1920);
}

#[test]
fn test_beat_l_dur() {
    assert_eq!(beat_l_dur(2), HALF_L_DUR);
    assert_eq!(beat_l_dur(4), QTR_L_DUR);
    assert_eq!(beat_l_dur(8), EIGHTH_L_DUR);
    assert_eq!(beat_l_dur(16), SIXTEENTH_L_DUR);
}

#[test]
fn test_beats_dur() {
    assert_eq!(beats_dur(4, false), 480);
    assert_eq!(beats_dur(8, true), 720);
    assert_eq!(beats_dur(2, false), 960);
    assert_eq!(beats_dur(8, true), 720);
}

#[test]
fn test_measure_dur() {
    assert_eq!(measure_dur(4, 4), 1920);
    assert_eq!(measure_dur(3, 4), 1440);
    assert_eq!(measure_dur(6, 8), 1440);
    assert_eq!(measure_dur(2, 2), 1920);
    assert_eq!(measure_dur(12, 8), 2880);
    assert_eq!(measure_dur(5, 4), 2400);
}

#[test]
fn test_beats_per_measure() {
    assert_eq!(beats_per_measure(4, false), 4);
    assert_eq!(beats_per_measure(3, false), 3);
    assert_eq!(beats_per_measure(2, false), 2);
    assert_eq!(beats_per_measure(6, true), 2);
    assert_eq!(beats_per_measure(9, true), 3);
    assert_eq!(beats_per_measure(12, true), 4);
}

#[test]
fn test_duration_relationships() {
    assert_eq!(code_to_l_dur(HALF_L_DUR, 0) * 2, code_to_l_dur(WHOLE_L_DUR, 0));
    assert_eq!(code_to_l_dur(QTR_L_DUR, 0) * 4, code_to_l_dur(WHOLE_L_DUR, 0));
    assert_eq!(code_to_l_dur(EIGHTH_L_DUR, 0) * 8, code_to_l_dur(WHOLE_L_DUR, 0));
    assert_eq!(code_to_l_dur(QTR_L_DUR, 1), code_to_l_dur(QTR_L_DUR, 0) * 3 / 2);
    assert_eq!(code_to_l_dur(HALF_L_DUR, 1), code_to_l_dur(HALF_L_DUR, 0) * 3 / 2);
}

#[test]
fn test_triplet_math() {
    let quarter_dur = code_to_l_dur(QTR_L_DUR, 0);
    let triplet_eighth_dur = quarter_dur / 3;
    assert_eq!(triplet_eighth_dur, 160);
    assert_eq!(triplet_eighth_dur * 3, quarter_dur);
}

#[test]
fn breve_is_two_whole_notes() {
    assert_eq!(code_to_l_dur(BREVE_L_DUR, 0), 3840);
    assert_eq!(code_to_l_dur(BREVE_L_DUR, 1), 5760);
}

#[test]
fn each_shorter_code_halves_the_duration() {
    for code in 3i8..=9 {
        assert_eq!(code_to_l_dur(code - 1, 0), 2 * code_to_l_dur(code, 0));
    }
}
