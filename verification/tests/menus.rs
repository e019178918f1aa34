use aurora_ui::events::{Cursor, Status};
use aurora_ui::menus::{DropdownMenu, Menubar};

#[test]
fn dropdown_numbers_items_past_separators() {
    let m = DropdownMenu::new()
        .item("Cut".to_string())
        .item("Copy".to_string())
        .separator()
        .item("Paste".to_string());
    assert_eq!(m.item_index_at(0), Some(0));
    assert_eq!(m.item_index_at(1), Some(1));
    assert_eq!(m.item_index_at(2), None);
    assert_eq!(m.item_index_at(3), Some(2));
    assert_eq!(m.item_index_at(4), None);
}

#[test]
fn dropdown_presses() {
    let mut m = DropdownMenu::new().item("A".to_string()).separator().item("B".to_string());
    assert_eq!(m.press(false, Some(0)).response.status, Status::Ignored);
    let r = m.press(true, None);
    assert_eq!(r.response.cursor, Some(Cursor::Pointer));
    assert!(m.open);
    m.pointer_moved(false, Some(2));
    assert_eq!(m.hover_index, Some(1));
    let r = m.press(false, Some(2));
    assert_eq!(r.chosen, Some(1));
    assert!(!m.open);
    m.press(true, None);
    let r = m.press(false, Some(1));
    assert_eq!(r.chosen, None);
    assert!(!m.open);
}

#[test]
fn menubar_opens_one_menu() {
    let mut b = Menubar::new()
        .menu("File".to_string(), vec!["New".to_string(), "Quit".to_string()])
        .menu("Edit".to_string(), vec!["Undo".to_string()]);
    assert_eq!(b.bar_moved(true, Some(1)).cursor, Some(Cursor::Pointer));
    assert_eq!(b.active_menu, None);
    b.bar_click(Some(0));
    assert_eq!(b.active_menu, Some(0));
    b.bar_moved(true, Some(1));
    assert_eq!(b.active_menu, Some(1));
    b.bar_click(Some(1));
    assert_eq!(b.active_menu, None);
    assert_eq!(b.bar_click(Some(5)).status, Status::Ignored);
    b.bar_click(Some(0));
    b.overlay_moved(Some(1));
    assert_eq!(b.hover_item, Some(1));
    assert_eq!(b.overlay_click(false, Some(1)).response.status, Status::Canceled);
    let r = b.overlay_click(true, Some(1));
    assert_eq!(r.chosen, Some((0, 1)));
    assert_eq!(b.active_menu, None);
    b.bar_click(Some(1));
    let r = b.overlay_click(true, Some(3));
    assert_eq!(r.response.status, Status::Canceled);
    assert_eq!(b.active_menu, None);
}
