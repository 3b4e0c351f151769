use nightingale_core::draw::draw_object::{normalize_chord_symbol, replace_ext_accidentals, replace_root_accidentals};

#[test]
fn test_normalize_chord_symbol_simple() {
    let raw = "C\x7fmaj\x7f7\x7f\x7f\x7f\x7f";
    assert_eq!(normalize_chord_symbol(raw), "Cmaj7");
}

#[test]
fn test_normalize_chord_symbol_flat_root() {
    let raw = "Bb\x7f\x7f7\x7f\x7f\x7f\x7f";
    assert_eq!(normalize_chord_symbol(raw), "Bb7");
}

#[test]
fn test_normalize_chord_symbol_sharp_root() {
    let raw = "F#\x7fm\x7f\x7f\x7f\x7f\x7f";
    assert_eq!(normalize_chord_symbol(raw), "F#m");
}

#[test]
fn test_normalize_chord_symbol_natural() {
    let raw = "Cn\x7f\x7f\x7f\x7f\x7f\x7f";
    assert_eq!(normalize_chord_symbol(raw), "C\u{266E}");
}

#[test]
fn test_normalize_chord_symbol_double_flat() {
    let raw = "B\u{00BA}\x7f\x7f\x7f\x7f\x7f\x7f";
    assert_eq!(normalize_chord_symbol(raw), "Bbb");
}

#[test]
fn test_normalize_chord_symbol_double_sharp() {
    let raw = "F\u{00DC}\x7f\x7f\x7f\x7f\x7f\x7f";
    assert_eq!(normalize_chord_symbol(raw), "F##");
}

#[test]
fn test_normalize_chord_symbol_with_bass() {
    let raw = "C\x7f\x7f7\x7f\x7f\x7f\x7fBb";
    assert_eq!(normalize_chord_symbol(raw), "C7/Bb");
}

#[test]
fn test_normalize_chord_symbol_extension_stack() {
    let raw = "C\x7f\x7f\x7f7\x7fb9\x7f\x7f";
    assert_eq!(normalize_chord_symbol(raw), "C(7/b9)");
}

#[test]
fn test_normalize_chord_symbol_full() {
    let raw = "Bb\x7f\x7f7\x7fb9\x7f#11\x7f\x7fEb";
    assert_eq!(normalize_chord_symbol(raw), "Bb7(b9/#11)/Eb");
}

#[test]
fn test_normalize_chord_symbol_old_style() {
    let raw = "Cmaj7";
    assert_eq!(normalize_chord_symbol(raw), "Cmaj7");
}

#[test]
fn test_normalize_chord_symbol_trailing_nul() {
    let raw = "C\x7f\x7f7\x7f\x7f\x7f\x7f\x00\x00";
    assert_eq!(normalize_chord_symbol(raw), "C7");
}

#[test]
fn chord_symbol_old_style_strips_nul_and_trailing_controls() {
    assert_eq!(normalize_chord_symbol("C\x00m\x7f7\x01\x02"), "Cm7");
}

#[test]
fn chord_symbol_extra_fields_are_dropped() {
    assert_eq!(normalize_chord_symbol("C\x7f\x7f\x7f\x7f\x7f\x7f\x7fextra"), "C");
}

#[test]
fn chord_symbol_only_third_stack_field() {
    assert_eq!(normalize_chord_symbol("D\x7fm\x7f\x7f\x7f\x7f13\x7f"), "Dm(13)");
}

#[test]
fn root_accidentals_after_note_letters_only() {
    let mut out = String::new();
    replace_root_accidentals("Gn n\u{00BA}", &mut out);
    assert_eq!(out, "G\u{266E} nbb");
    let mut ext = String::from("x");
    replace_ext_accidentals("n\u{00DC}", &mut ext);
    assert_eq!(ext, "xn##");
}
