use aurora_ui::svg::SvgData;

#[test]
fn parses_a_small_document() {
    let doc = br#"<svg xmlns="http://www.w3.org/2000/svg" width="4" height="2"><rect width="4" height="2" fill="red"/></svg>"#;
    let svg = SvgData::from_bytes(doc).ok().unwrap();
    assert_eq!(svg.tree().size().width(), 4.0);
}

#[test]
fn refuses_non_svg() {
    assert!(SvgData::from_bytes(&[0xff, 0xfe, 0x00]).is_err());
    assert!(SvgData::from_bytes(b"not an svg").is_err());
}
