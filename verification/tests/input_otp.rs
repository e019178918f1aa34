use aurora_ui::events::{Key, Status};
use aurora_ui::input_otp::InputOtp;

#[test]
fn typing_fills_cells_and_completes() {
    let mut o = InputOtp::new(7, 4);
    assert_eq!(o.char_typed('1').response.status, Status::Ignored);
    let r = o.press(Some(3));
    assert_eq!(r.request_focus, Some(7));
    assert_eq!(o.cursor, 0);
    for (i, c) in ['1', '2', '3'].iter().enumerate() {
        let r = o.char_typed(*c);
        assert!(r.changed);
        assert!(!r.completed);
        assert_eq!(o.cursor, i + 1);
    }
    let r = o.char_typed('4');
    assert!(r.completed);
    assert_eq!(o.value_string(), "1234");
    assert_eq!(o.cursor, 3);
    let r = o.char_typed('5');
    assert!(!r.changed);
    assert_eq!(o.value_string(), "1234");
}

#[test]
fn backspace_and_arrows() {
    let mut o = InputOtp::new(1, 4);
    o.focus(1);
    o.char_typed('a');
    o.char_typed('b');
    o.char_typed('c');
    o.key_pressed(Key::Left, false);
    o.key_pressed(Key::Left, false);
    assert_eq!(o.cursor, 1);
    let r = o.key_pressed(Key::Backspace, false);
    assert!(r.changed);
    assert_eq!(o.value_string(), "ac");
    assert_eq!(o.cursor, 0);
    o.key_pressed(Key::Right, false);
    o.key_pressed(Key::Right, false);
    o.key_pressed(Key::Right, false);
    o.key_pressed(Key::Right, false);
    assert_eq!(o.cursor, 3);
    o.key_pressed(Key::Backspace, false);
    assert_eq!(o.value_string(), "a");
    assert_eq!(o.cursor, 2);
    o.char_typed('z');
    assert_eq!(o.value_string(), "az");
    let r = o.key_pressed(Key::Enter, false);
    assert_eq!(r.response.status, Status::Ignored);
}

#[test]
fn focus_and_tab() {
    let mut o = InputOtp::new(5, 0);
    assert_eq!(o.length, 1);
    assert_eq!(o.focus(6).response.status, Status::Ignored);
    assert!(!o.focused);
    o.focus(5);
    assert!(o.focused);
    let r = o.key_pressed(Key::Tab, true);
    assert!(r.focus_prev && !r.focus_next);
    assert!(!o.focused);
    o.press(Some(0));
    o.press(None);
    assert!(!o.focused);
}
