use aurora_ui::color_text::{color_to_hex_string, color_to_rgb_string};
use aurora_ui::theme::Color;

#[test]
fn hex_format() {
    let color = Color::new(255, 128, 0, 255);
    let hex = color_to_hex_string(color);
    assert_eq!(hex, "#FF8000");

    let black = Color::new(0, 0, 0, 255);
    assert_eq!(color_to_hex_string(black), "#000000");

    let white = Color::new(255, 255, 255, 255);
    assert_eq!(color_to_hex_string(white), "#FFFFFF");
}

#[test]
fn rgb_format() {
    let color = Color::new(255, 128, 0, 255);
    let rgb = color_to_rgb_string(color);
    assert_eq!(rgb, "R: 255  G: 128  B: 0");
}

#[test]
fn hex_format_low_digits() {
    assert_eq!(color_to_hex_string(Color::new(10, 1, 171, 0)), "#0A01AB");
}
