use aphrodite::psfont::{ERR_INVALID_MAGIC, parse_psfu, parse_raw_pc_screen_font};

fn header(magic: u32, flags: u32, num_glyphs: u32, bytes_per_glyph: u32) -> Vec<u8> {
    let mut data = Vec::new();
    for word in [magic, 0, 32, flags, num_glyphs, bytes_per_glyph, 2, 1] {
        data.extend_from_slice(&word.to_le_bytes());
    }
    data
}

#[test]
fn raw_parse_reads_the_header_words() {
    let mut data = header(0x864ab572, 1, 2, 2);
    data.extend_from_slice(&[1, 2, 3, 4]);
    let font = parse_raw_pc_screen_font(data).unwrap();
    assert_eq!(font.magic, 0x864ab572);
    assert_eq!(font.version, 0);
    assert_eq!(font.header_size, 32);
    assert_eq!(font.flags, 1);
    assert_eq!(font.num_glyphs, 2);
    assert_eq!(font.bytes_per_glyph, 2);
    assert_eq!(font.height, 2);
    assert_eq!(font.width, 1);
    assert_eq!(font.glyphs, vec![1, 2, 3, 4]);
}

#[test]
fn raw_parse_rejects_a_wrong_magic() {
    let data = header(0xDEADBEEF, 0, 0, 0);
    let err = parse_raw_pc_screen_font(data).unwrap_err();
    assert_eq!(err.code(), ERR_INVALID_MAGIC);
}

#[test]
fn psfu_parse_cuts_glyphs_without_a_table() {
    let mut data = header(0x864ab572, 1, 2, 2);
    data.extend_from_slice(&[1, 2, 3, 4]);
    let font = parse_psfu(data).unwrap();
    assert_eq!(font.flags, 1);
    assert_eq!(font.glyphs.len(), 2);
    assert_eq!(font.glyphs[0].data, vec![1, 2]);
    assert_eq!(font.glyphs[1].data, vec![3, 4]);
    assert_eq!(font.glyphs[0].len, 2);
    assert_eq!(font.glyphs[0].height, 2);
    assert_eq!(font.glyphs[0].width, 1);
    assert!(font.unitable.is_none());
}

#[test]
fn psfu_parse_reads_the_unicode_table() {
    let mut data = header(0x864ab572, 0, 2, 2);
    data.extend_from_slice(&[1, 2, 3, 4]);
    data.extend_from_slice(&[0x41, 0xFF, 0x42, 0x43, 0xFF]);
    let font = parse_psfu(data).unwrap();
    let unitable = font.unitable.unwrap();
    assert_eq!(unitable.len(), 2);
    assert_eq!(unitable[0], vec![0x41]);
    assert_eq!(unitable[1], vec![0x42, 0x43]);
}

#[test]
fn psfu_parse_rejects_a_wrong_magic() {
    let data = header(0x12345678, 0, 0, 0);
    let err = parse_psfu(data).unwrap_err();
    assert_eq!(err.code(), ERR_INVALID_MAGIC);
}
