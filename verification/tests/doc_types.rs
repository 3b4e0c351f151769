use nightingale_core::doc_types::{
    DocumentHeader, FontItem, HeaderError, ScoreHeader, DOC_HDR_OFFSET, DOC_HDR_SIZE,
    FONTITEM_SIZE, N_FONT_RECORDS, SCORE_HDR_OFFSET, SCORE_HDR_SIZE_N105, TEXTSTYLE_SIZE_N105,
};

#[test]
fn test_constants() {
    assert_eq!(DOC_HDR_SIZE, 72);
    assert_eq!(SCORE_HDR_SIZE_N105, 2148);
    assert_eq!(DOC_HDR_OFFSET, 8);
    assert_eq!(SCORE_HDR_OFFSET, 80);
    assert_eq!(N_FONT_RECORDS, 15);
    assert_eq!(TEXTSTYLE_SIZE_N105, 36);
}

#[test]
fn test_document_header_size() {
    assert_eq!(std::mem::size_of::<DocumentHeader>(), DOC_HDR_SIZE, "DocumentHeader must be exactly 72 bytes");
}

#[test]
fn test_fontitem_size() {
    assert_eq!(std::mem::size_of::<FontItem>(), FONTITEM_SIZE, "FontItem must be exactly 34 bytes");
}

#[test]
fn document_header_reads_big_endian_fields() {
    let mut data = vec![0u8; 72];
    data[0] = 0x01;
    data[1] = 0x02; // origin.v = 0x0102
    data[2] = 0xFF;
    data[3] = 0xFE; // origin.h = -2
    data[36] = 0x00;
    data[37] = 0x03; // current_sheet = 3
    data[70] = 0xFF; // landscape = -1
    data[71] = 1;
    let h = DocumentHeader::from_n105_bytes(&data).unwrap();
    assert_eq!(h.origin.v, 0x0102);
    assert_eq!(h.origin.h, -2);
    assert_eq!(h.current_sheet, 3);
    assert_eq!(h.landscape, -1);
    assert_eq!(h.little_endian, 1);
}

#[test]
fn document_header_too_short() {
    let data = vec![0u8; 71];
    assert_eq!(
        DocumentHeader::from_n105_bytes(&data),
        Err(HeaderError::TooShort { needed: 72, got: 71 })
    );
}

#[test]
fn score_header_too_short_message() {
    let data = vec![0u8; 100];
    assert_eq!(
        ScoreHeader::from_n105_bytes(&data).unwrap_err(),
        "ScoreHeader requires >=2148 bytes, got 100"
    );
}

#[test]
fn score_header_fields_and_bit_fields() {
    let mut data = vec![0u8; 2148];
    data[0] = 0x00;
    data[1] = 0x05; // head_l
    data[8] = 0x00;
    data[9] = 0x02; // nstaves
    data[12] = b'H'; // comment
    data[268] = 0b1010_0001; // feedback, saved, poly_timbral
    data[290] = 0b1011_1100; // top_pgn=1, h_pos_pgn=3, alternate=1, use_header_footer=1
    data[302] = 0b1010_0000;
    data[303] = 0x01; // above_mn=1, sys_first_mn=0, start_mn_print1=1, first_mn_number=1
    // measure-number text style at 310: name "A", bits, style
    data[310] = b'A';
    data[342] = 0b0000_1101;
    data[343] = 0b1000_1100; // filler=1, lyric=1, enclosure=1, rel=1, size=12
    data[344] = 0x00;
    data[345] = 0x02;
    // font table starts at 852: first item id 7
    data[852] = 0x00;
    data[853] = 0x07;
    data[854] = b'S';
    data[1569] = 0xFE; // number_meas (at 1569) = -2
    data[1939] = 9; // last voice entry partn (1639 + 3 * 100)
    let h = ScoreHeader::from_n105_bytes(&data).unwrap();
    assert_eq!(h.head_l, 5);
    assert_eq!(h.nstaves, 2);
    assert_eq!(h.comment[0], b'H');
    assert_eq!(h.note_ins_feedback, 1);
    assert_eq!(h.dont_send_patches, 0);
    assert_eq!(h.saved, 1);
    assert_eq!(h.poly_timbral, 1);
    assert_eq!(h.top_pgn, 1);
    assert_eq!(h.h_pos_pgn, 3);
    assert_eq!(h.alternate_pgn, 1);
    assert_eq!(h.use_header_footer, 1);
    assert_eq!(h.filler_pgn, 0);
    assert_eq!(h.above_mn, 1);
    assert_eq!(h.sys_first_mn, 0);
    assert_eq!(h.start_mn_print1, 1);
    assert_eq!(h.first_mn_number, 1);
    assert_eq!(h.font_name_mn[0], b'A');
    assert_eq!(h.filler_mn, 1);
    assert_eq!(h.lyric_mn, 1);
    assert_eq!(h.enclosure_mn, 1);
    assert_eq!(h.rel_f_size_mn, 1);
    assert_eq!(h.font_size_mn, 12);
    assert_eq!(h.font_style_mn, 2);
    assert_eq!(h.font_table[0].font_id, 7);
    assert_eq!(h.font_table[0].font_name[0], b'S');
    assert_eq!(h.number_meas, -2);
    assert_eq!(h.voice_tab[100].partn, 9);
    // With exactly 2148 bytes, 68 expansion entries are read and the rest stay zero.
    assert_eq!(h.expansion[154].partn, 0);
}

#[test]
fn score_header_expansion_reads_as_far_as_data_goes() {
    let mut data = vec![0u8; 2148];
    data[1942 + 3 * 67] = 4; // last expansion entry that fits
    let h = ScoreHeader::from_n105_bytes(&data).unwrap();
    assert_eq!(h.expansion[67].partn, 4);
    let mut longer = vec![0u8; 1942 + 3 * 155];
    longer[1942 + 3 * 154 + 2] = 8;
    let h2 = ScoreHeader::from_n105_bytes(&longer).unwrap();
    assert_eq!(h2.expansion[154].rel_voice, 8);
}
