use aurora_ui::image_data::ImageData;

fn png_bytes(img: &image::RgbaImage) -> Vec<u8> {
    let mut out = std::io::Cursor::new(Vec::new());
    img.write_to(&mut out, image::ImageFormat::Png).unwrap();
    out.into_inner()
}

#[test]
fn decoded_png_has_four_bytes_per_pixel() {
    let mut img = image::RgbaImage::new(2, 3);
    img.put_pixel(0, 0, image::Rgba([10, 20, 30, 40]));
    img.put_pixel(1, 2, image::Rgba([1, 2, 3, 255]));
    let data = ImageData::from_bytes(&png_bytes(&img)).ok().unwrap();
    assert_eq!((data.width, data.height), (2, 3));
    assert_eq!(data.pixels.len(), 2 * 3 * 4);
    assert_eq!(&data.pixels[0..4], &[10, 20, 30, 40]);
    assert_eq!(&data.pixels[20..24], &[1, 2, 3, 255]);
}

#[test]
fn garbage_is_not_an_image() {
    assert!(ImageData::from_bytes(&[1, 2, 3, 4, 5]).is_err());
}
