use nightingale_core::basic_types::{KsInfo, NILINK};
use nightingale_core::layout::{compute_continuation_preamble_info, compute_preamble_width_info, LayoutConfig, PreambleInfo};

#[test]
fn test_layout_config_defaults() {
    let c = LayoutConfig::default();
    assert_eq!(c.page_width, 612);
    assert_eq!(c.page_height, 792);
    assert_eq!(c.staff_height, 384);
    assert_eq!(c.system_left, 1152);
    assert_eq!(c.system_right, 8928);
    assert!(c.content_width() > 0);
}

fn preamble(n_ks: i8) -> PreambleInfo {
    let mut ks_info = KsInfo::default();
    ks_info.n_ks_items = n_ks;
    PreambleInfo {
        num_staves: 1,
        clef_types: vec![1],
        ks_info,
        time_num: 4,
        time_denom: 4,
        has_connect: false,
        connect_type: 3,
        staff_above: 1,
        staff_below: 1,
        system_link: NILINK,
        page_link: NILINK,
        tail_link: NILINK,
    }
}

#[test]
fn test_preamble_width_positive() {
    let preamble = preamble(0);
    let c = LayoutConfig::default();
    let pw = compute_preamble_width_info(&preamble, &c);
    assert!(pw > 0, "Preamble width should be positive: {}", pw);
}

#[test]
fn test_systems_per_page() {
    let c = LayoutConfig::default();
    let spp = c.systems_per_page(2);
    assert!((1..=10).contains(&spp), "Reasonable systems/page: {}", spp);
}

#[test]
fn layout_config_exact_values() {
    let c = LayoutConfig::default();
    assert_eq!(c.content_width(), 8928 - 1152);
    assert_eq!(c.d_line_sp(), 96);
    assert_eq!(c.staff_metrics(), (96, 96, 48, 0));
    assert_eq!(c.inter_staff, 960);
    // (792 * 16 - 1152) / max(2800, 384 + 960 + 200) = 11520 / 2800 = 4
    assert_eq!(c.systems_per_page(2), 4);
    // 5 staves: system height 384 + 4 * 960 = 4224, pitch 4424: 11520 / 4424 = 2
    assert_eq!(c.systems_per_page(5), 2);
}

#[test]
fn preamble_widths_exact_values() {
    let c = LayoutConfig::default();
    // dls = 96: 96 + 336 + 0 + 288
    assert_eq!(compute_preamble_width_info(&preamble(0), &c), 720);
    // two accidentals: 9 * 2 * 384 / 32 + 96 = 312
    assert_eq!(compute_preamble_width_info(&preamble(2), &c), 720 + 312);
    // continuation: 96 + 240 + key signature width
    assert_eq!(compute_continuation_preamble_info(&preamble(0), &c), 336);
    assert_eq!(compute_continuation_preamble_info(&preamble(2), &c), 336 + 312);
}
