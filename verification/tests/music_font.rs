use nightingale_core::music_font::stem_space_width_ddist;

#[test]
fn test_stem_space_width_ddist() {
    assert_eq!(stem_space_width_ddist(16), 18);
}

#[test]
fn test_stem_space_width_ddist_small() {
    assert_eq!(stem_space_width_ddist(12), 14);
}

#[test]
fn stem_space_width_negative_truncates_toward_zero() {
    assert_eq!(stem_space_width_ddist(-16), -18);
    assert_eq!(stem_space_width_ddist(0), 0);
}
