use aurora_ui::fonts::{FontError, FontManager, FontWeight};

#[test]
fn garbage_bytes_load_no_font() {
    let mut m = FontManager::new();
    assert_eq!(m.load_from_bytes(&[0, 1, 2, 3, 4, 5]), None);
    let mut l = FontManager::new_with_locale("en-US");
    assert_eq!(l.load_from_bytes(&[]), None);
    let _ = l.font_system_mut();
}

#[test]
fn weights_are_css_numbers() {
    assert_eq!(FontWeight::Thin.value(), 100);
    assert_eq!(FontWeight::Normal.value(), 400);
    assert_eq!(FontWeight::Bold.value(), 700);
    assert_eq!(FontWeight::Black.value(), 900);
}

#[test]
fn io_errors_become_font_errors() {
    let e: FontError = std::io::Error::new(std::io::ErrorKind::NotFound, "missing").into();
    match e {
        FontError::FailedToLoadFont(inner) => assert_eq!(inner.kind(), std::io::ErrorKind::NotFound),
    }
}

#[test]
fn locale_reaches_the_font_system() {
    let mut l = FontManager::new_with_locale("ja-JP");
    assert_eq!(l.font_system_mut().locale(), "ja-JP");
    assert_eq!(l.font_system_mut().db().len(), 0);
    assert_eq!(l.load_from_bytes(&[0xde, 0xad, 0xbe, 0xef]), None);
    assert_eq!(l.font_system_mut().db().len(), 0);
    let mut m = FontManager::new();
    assert_eq!(m.font_system_mut().locale(), "");
}
