use nightingale_core::defs::{
    flag_leading, grace_size, head_width, small_size, ALTO_CLEF, BASS_CLEF, BREVE_L_DUR,
    EIGHTH_L_DUR, HEADER_TYPE, J_D, J_IP, J_IT, J_STRUC, OBJ_TYPE, QTR_L_DUR, SYNC_TYPE,
    TREBLE_CLEF, WHOLEMR_L_DUR, WHOLE_L_DUR,
};

#[test]
fn test_object_type_constants() {
    assert_eq!(HEADER_TYPE, 0);
    assert_eq!(SYNC_TYPE, 2);
    assert_eq!(OBJ_TYPE, 24);
}

#[test]
fn test_duration_codes() {
    assert_eq!(WHOLEMR_L_DUR, -1);
    assert_eq!(BREVE_L_DUR, 1);
    assert_eq!(WHOLE_L_DUR, 2);
    assert_eq!(QTR_L_DUR, 4);
    assert_eq!(EIGHTH_L_DUR, 5);
}

#[test]
fn test_clef_types() {
    assert_eq!(TREBLE_CLEF, 3);
    assert_eq!(ALTO_CLEF, 6);
    assert_eq!(BASS_CLEF, 10);
}

#[test]
fn test_style_functions() {
    assert_eq!(head_width(16), 18);
    assert_eq!(flag_leading(16), 12);
    assert_eq!(small_size(12), 9);
    assert_eq!(grace_size(10), 7);
}

#[test]
fn test_justification_types() {
    assert_eq!(J_IT, 1);
    assert_eq!(J_IP, 2);
    assert_eq!(J_D, 3);
    assert_eq!(J_STRUC, 4);
}

#[test]
fn style_functions_truncate_toward_zero() {
    assert_eq!(head_width(-16), -18);
    assert_eq!(head_width(-15), -16);
    assert_eq!(flag_leading(-3), -2);
    assert_eq!(small_size(-5), -3);
    assert_eq!(grace_size(-3), -2);
}
