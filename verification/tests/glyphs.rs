use aurora_ui::glyphs::{blend_glyph, glyph_pixel};

#[test]
fn glyph_mask_is_clipped_and_blended() {
    // 4x3 buffer of black; a 2x2 glyph at (2, 1) with one empty cell.
    let mut buf = vec![0u32; 12];
    let mask = [255u8, 0, 128, 255];
    blend_glyph(&mut buf, 4, (0, 0, 4, 3), 2, 1, 2, 2, &mask, 0x00ff_ffff);
    assert_eq!(buf[6], 0x00ff_ffff);
    assert_eq!(buf[7], 0);
    assert_eq!(buf[10], 0x0080_8080);
    assert_eq!(buf[11], 0x00ff_ffff);
    assert_eq!(buf[5], 0);
}

#[test]
fn glyph_outside_clip_is_skipped() {
    let mut buf = vec![0u32; 12];
    let mask = [255u8; 4];
    blend_glyph(&mut buf, 4, (0, 0, 3, 2), 2, 1, 2, 2, &mask, 0x0010_2030);
    assert_eq!(buf[6], 0x0010_2030);
    assert_eq!(buf.iter().filter(|p| **p != 0).count(), 1);
    let mut buf2 = vec![7u32; 12];
    blend_glyph(&mut buf2, 4, (0, 0, 4, 3), -5, -5, 2, 2, &mask, 0);
    assert!(buf2.iter().all(|p| *p == 7));
}

#[test]
fn glyph_colours_by_range() {
    let ranges = vec![(0..3, 1u32), (4..6, 2u32), (6..9, 3u32)];
    assert_eq!(glyph_pixel(&ranges, 0, 9), 1);
    assert_eq!(glyph_pixel(&ranges, 3, 9), 9);
    assert_eq!(glyph_pixel(&ranges, 5, 9), 2);
    assert_eq!(glyph_pixel(&ranges, 6, 9), 3);
    assert_eq!(glyph_pixel(&ranges, 12, 9), 9);
    assert_eq!(glyph_pixel(&[], 1, 4), 4);
}
