use aurora_ui::events::{Cursor, Key, Status};
use aurora_ui::pickers::{hover_down, hover_up, Combobox, Command};

#[test]
fn hover_moves_and_stops() {
    assert_eq!(hover_down(None, 3), Some(0));
    assert_eq!(hover_down(Some(0), 3), Some(1));
    assert_eq!(hover_down(Some(2), 3), Some(2));
    assert_eq!(hover_down(Some(9), 3), Some(2));
    assert_eq!(hover_down(Some(1), 0), Some(1));
    assert_eq!(hover_up(Some(0)), Some(0));
    assert_eq!(hover_up(Some(2)), Some(1));
    assert_eq!(hover_up(None), None);
}

#[test]
fn combobox_search_and_choose() {
    let mut c = Combobox::new()
        .option("Red".to_string())
        .option("Green".to_string())
        .option("Blue".to_string());
    assert_eq!(c.char_typed('r').status, Status::Ignored);
    let r = c.press(true, None);
    assert_eq!(r.response.cursor, Some(Cursor::Text));
    assert!(c.open && c.focused);
    c.char_typed('E');
    c.update_filtered();
    assert_eq!(c.filtered_indices, vec![0, 1, 2]);
    c.char_typed('e');
    c.update_filtered();
    assert_eq!(c.filtered_indices, vec![1]);
    c.key_pressed(Key::Backspace);
    assert_eq!(c.search, "E");
    c.update_filtered();
    c.key_pressed(Key::Down);
    c.key_pressed(Key::Down);
    let r = c.key_pressed(Key::Enter);
    assert_eq!(r.chosen, Some(1));
    assert_eq!(c.selected, Some(1));
    assert!(c.search.is_empty());
    assert!(!c.open);
}

#[test]
fn combobox_clicks_outside() {
    let mut c = Combobox::new().option("One".to_string());
    c.press(true, None);
    c.update_filtered();
    let m = c.pointer_moved(false, Some(0));
    assert_eq!(m.cursor, Some(Cursor::Pointer));
    assert_eq!(c.hover_index, Some(0));
    let r = c.press(false, Some(0));
    assert_eq!(r.chosen, Some(0));
    c.press(true, None);
    let r = c.press(false, None);
    assert_eq!(r.response.status, Status::Consumed);
    assert!(!c.open && !c.focused);
    let r = c.press(false, None);
    assert_eq!(r.response.status, Status::Ignored);
    assert_eq!(c.key_pressed(Key::Escape).response.status, Status::Ignored);
}

#[test]
fn palette_runs_commands() {
    let mut p = Command::new()
        .command("New File".to_string())
        .command("Open File".to_string())
        .command("Save".to_string());
    assert_eq!(p.key_pressed(Key::Enter).response.status, Status::Ignored);
    p.set_open(true);
    p.char_typed('f');
    p.char_typed('i');
    p.update_filtered();
    assert_eq!(p.filtered_indices, vec![0, 1]);
    p.key_pressed(Key::Down);
    p.key_pressed(Key::Down);
    let r = p.key_pressed(Key::Enter);
    assert_eq!(r.run, Some(1));
    assert!(!p.open);
    p.set_open(true);
    assert!(p.search.is_empty());
    p.update_filtered();
    assert_eq!(p.press(true, Some(2)).run, Some(2));
    p.set_open(true);
    assert_eq!(p.press(true, Some(7)).run, None);
    assert!(p.open);
    assert_eq!(p.press(false, None).response.status, Status::Consumed);
    assert!(!p.open);
}
