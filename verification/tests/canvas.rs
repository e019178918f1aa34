use aurora_ui::canvas::{blend_pixel, blend_span, clip_bounds, draw_image_pixel, fill_rect, stroke_rect};

#[test]
fn blend_pixel_opaque_transparent_and_half() {
    let mut buf = vec![0x00FF_FFFFu32; 3];
    blend_pixel(&mut buf, 0, 0x0000_0000, 255);
    blend_pixel(&mut buf, 1, 0x0000_0000, 0);
    blend_pixel(&mut buf, 2, 0x0000_0000, 128);
    blend_pixel(&mut buf, 7, 0x0000_0000, 255);
    assert_eq!(buf, vec![0x0000_0000, 0x00FF_FFFF, 0x007F_7F7F]);
}

#[test]
fn blend_span_mixes_each_channel() {
    let mut buf = vec![0x0000_0000u32, 0x0010_2030, 0x00FF_FFFF, 0x1234_5678];
    blend_span(&mut buf, 1, 3, 0x00FF_0000, 51);
    // 0x10 * 204 / 255 = 12, 0x20 * 204 / 255 = 25, 0x30 * 204 / 255 = 38, plus 255 * 51 / 255 = 51 on red
    assert_eq!(buf[0], 0);
    assert_eq!(buf[1], ((16 * 204 + 255 * 51) / 255) << 16 | (32 * 204 / 255) << 8 | (48 * 204 / 255));
    assert_eq!(buf[2], 0x00FF_CCCC);
    assert_eq!(buf[3], 0x1234_5678);
}

#[test]
fn clip_bounds_limits_to_canvas_and_clip() {
    assert_eq!(clip_bounds((2, 3, 50, 60), 10, 20, None), (2, 3, 10, 20));
    assert_eq!(clip_bounds((2, 3, 50, 60), 10, 20, Some((4, 1, 8, 30))), (4, 3, 8, 20));
}

#[test]
fn fill_rect_fills_only_the_region() {
    let mut buf = vec![0u32; 4 * 3];
    fill_rect(&mut buf, 4, 3, (1, 1, 3, 9), None, 0x00AB_CDEF, 255);
    let expected: Vec<u32> = (0..12)
        .map(|i| if (i / 4) >= 1 && (i % 4) >= 1 && (i % 4) < 3 { 0x00AB_CDEF } else { 0 })
        .collect();
    assert_eq!(buf, expected);
    let mut untouched = vec![5u32; 12];
    fill_rect(&mut untouched, 4, 3, (0, 0, 4, 3), None, 0x00FF_FFFF, 0);
    assert_eq!(untouched, vec![5u32; 12]);
}

#[test]
fn stroke_rect_draws_border_only() {
    let mut buf = vec![0u32; 5 * 5];
    stroke_rect(&mut buf, 5, 5, (0, 0, 5, 5), None, 1, 0x0000_00FF, 255);
    for i in 0..25 {
        let (x, y) = (i % 5, i / 5);
        let border = x == 0 || x == 4 || y == 0 || y == 4;
        assert_eq!(buf[i], if border { 0xFF } else { 0 }, "pixel {i}");
    }
}

#[test]
fn draw_image_pixel_blends_sample() {
    let pixels = vec![10u8, 20, 30, 255, 200, 100, 50, 0];
    let mut buf = vec![0u32; 4];
    draw_image_pixel(&mut buf, 2, 1, 0, &pixels, 2, 1, 0, 0);
    draw_image_pixel(&mut buf, 2, 0, 1, &pixels, 2, 1, 1, 0);
    draw_image_pixel(&mut buf, 2, 1, 1, &pixels, 2, 1, 2, 0);
    assert_eq!(buf, vec![0, 0x000A_141E, 0, 0]);
}
