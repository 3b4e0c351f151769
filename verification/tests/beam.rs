use nightingale_core::beam::{compute_beam_slope, BeamNoteInfo};

#[test]
fn test_compute_beam_slope_flat() {
    let infos = vec![
        BeamNoteInfo { sync_xd: 100, note_yd: 32, note_ystem: 10, sync_id: 1 },
        BeamNoteInfo { sync_xd: 200, note_yd: 32, note_ystem: 10, sync_id: 2 },
        BeamNoteInfo { sync_xd: 300, note_yd: 32, note_ystem: 10, sync_id: 3 },
    ];
    let result = compute_beam_slope(&infos, 33).unwrap();
    assert_eq!(result.len(), 3);
    assert_eq!(result[0], 10);
    assert_eq!(result[1], 10);
    assert_eq!(result[2], 10);
}

#[test]
fn test_compute_beam_slope_ascending() {
    let infos = vec![
        BeamNoteInfo { sync_xd: 100, note_yd: 40, note_ystem: 10, sync_id: 1 },
        BeamNoteInfo { sync_xd: 300, note_yd: 20, note_ystem: -10, sync_id: 2 },
    ];
    let result = compute_beam_slope(&infos, 33).unwrap();
    assert_eq!(result.len(), 2);
    let diff = (result[0] - result[1]).abs();
    assert!(diff < 20, "slope should be reduced from natural 20");
}

#[test]
fn test_compute_beam_slope_degenerate() {
    let infos = vec![BeamNoteInfo { sync_xd: 100, note_yd: 32, note_ystem: 10, sync_id: 1 }];
    assert!(compute_beam_slope(&infos, 33).is_none());
}

#[test]
fn beam_slope_exact_values() {
    // Stems up; the base is the note with the highest stem end (-10).
    let infos = vec![
        BeamNoteInfo { sync_xd: 100, note_yd: 40, note_ystem: 10, sync_id: 1 },
        BeamNoteInfo { sync_xd: 300, note_yd: 20, note_ystem: -10, sync_id: 2 },
    ];
    let result = compute_beam_slope(&infos, 33).unwrap();
    // the line passes through the base: -10 + 20*33*(300 - x)/20000, so
    // x=100 gives -3.4 and x=300 keeps -10.
    assert_eq!(result, vec![-3, -10]);
}

#[test]
fn beam_slope_none_cases() {
    let infos = vec![
        BeamNoteInfo { sync_xd: 100, note_yd: 40, note_ystem: 10, sync_id: 1 },
        BeamNoteInfo { sync_xd: 100, note_yd: 20, note_ystem: -10, sync_id: 2 },
    ];
    assert!(compute_beam_slope(&infos, 33).is_none());
    let infos2 = vec![
        BeamNoteInfo { sync_xd: 100, note_yd: 40, note_ystem: 10, sync_id: 1 },
        BeamNoteInfo { sync_xd: 200, note_yd: 20, note_ystem: -10, sync_id: 2 },
    ];
    assert!(compute_beam_slope(&infos2, 0).is_none());
}

#[test]
fn beam_slope_full_percentage_stems_down() {
    // Stems down (stem end below head): the base is the last note with the
    // lowest stem end (60 at x=200); the line through it has the full slope
    // (-20 per 200).
    let infos = vec![
        BeamNoteInfo { sync_xd: 0, note_yd: 0, note_ystem: 40, sync_id: 1 },
        BeamNoteInfo { sync_xd: 100, note_yd: 0, note_ystem: 30, sync_id: 2 },
        BeamNoteInfo { sync_xd: 200, note_yd: 0, note_ystem: 60, sync_id: 3 },
    ];
    let result = compute_beam_slope(&infos, 100).unwrap();
    // 60 + (-20) * 100 * (200 - x) / 20000 = 60 - (200 - x) / 10.
    assert_eq!(result, vec![40, 50, 60]);
}
