use nightingale_core::comparison::{compare_rgba_pixels, og_fixtures};
use nightingale_core::draw::draw_object::{dynamic_type_to_smufl, DYNAMIC_FF, DYNAMIC_PIANO, DYNAMIC_SFP};

#[test]
fn identical_images_have_no_difference() {
    let img = vec![10u8, 20, 30, 255, 0, 0, 0, 255];
    let (diff, w, h, total, count) = compare_rgba_pixels(&img, 2, 1, &img, 2, 1);
    assert_eq!((w, h, total, count), (2, 1, 2, 0));
    // (10 * 30 + 17850) / 100 = 181, (20 * 30 + 17850) / 100 = 184, (30 * 30 + 17850) / 100 = 187
    assert_eq!(diff, vec![181, 184, 187, 255, 178, 178, 178, 255]);
}

#[test]
fn differing_pixels_are_red_and_counted() {
    let a = vec![0u8, 0, 0, 255, 255, 255, 255, 255];
    let b = vec![0u8, 0, 0, 255, 1, 2, 3, 4];
    let (diff, _, _, total, count) = compare_rgba_pixels(&a, 2, 1, &b, 2, 1);
    assert_eq!((total, count), (2, 1));
    assert_eq!(&diff[4..8], &[255, 0, 0, 255]);
    assert_eq!(&diff[0..4], &[178, 178, 178, 255]);
}

#[test]
fn smaller_image_is_padded_with_white() {
    let a = vec![255u8, 255, 255, 255];
    let b = vec![255u8, 255, 255, 255, 0, 0, 0, 255, 255, 255, 255, 255, 255, 255, 255, 255];
    let (diff, w, h, total, count) = compare_rgba_pixels(&a, 1, 1, &b, 2, 2);
    assert_eq!((w, h, total, count), (2, 2, 4, 1));
    assert_eq!(diff.len(), 16);
    assert_eq!(&diff[4..8], &[255, 0, 0, 255]);
    assert_eq!(&diff[12..16], &[255, 255, 255, 255]);
}

#[test]
fn empty_images_compare_to_nothing() {
    let (diff, w, h, total, count) = compare_rgba_pixels(&[], 0, 0, &[], 0, 0);
    assert_eq!((diff.len(), w, h, total, count), (0, 0, 0, 0, 0));
}

#[test]
fn reference_fixtures_are_listed() {
    let f = og_fixtures();
    assert_eq!(f.len(), 8);
    assert_eq!(f[0].fixture_name, "tc_02");
    assert_eq!(f[0].og_pdf, "02.ng.pdf");
    assert_eq!(f[7].fixture_name, "tc_schildt");
    assert_eq!(f[7].og_pdf, "schildt.ng.pdf");
}

#[test]
fn dynamics_map_to_smufl_glyphs() {
    assert_eq!(dynamic_type_to_smufl(4), Some(DYNAMIC_PIANO));
    assert_eq!(dynamic_type_to_smufl(8), Some(DYNAMIC_FF));
    assert_eq!(dynamic_type_to_smufl(8), Some(0xE52F));
    assert_eq!(dynamic_type_to_smufl(12), Some(0xE520));
    assert_eq!(dynamic_type_to_smufl(21), Some(DYNAMIC_SFP));
    assert_eq!(dynamic_type_to_smufl(22), None);
    assert_eq!(dynamic_type_to_smufl(0), None);
}

#[test]
fn mac_roman_bytes_decode_one_char_each() {
    let s = nightingale_core::text::mac_roman_to_string(&[b'C', 0x8E, 0xBD, 0xA5, b'#']);
    assert_eq!(s, "C\u{00E9}\u{03A9}\u{2022}#");
    assert_eq!(nightingale_core::text::mac_roman_to_string(&[]), "");
}
