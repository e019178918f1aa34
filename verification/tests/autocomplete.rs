use aurora_ui::autocomplete::AutoComplete;
use aurora_ui::events::{Cursor, Key, Status};

fn filtered(suggestions: &[&str], text: &str) -> Vec<usize> {
    let mut ac = AutoComplete::new();
    for s in suggestions {
        ac.suggestions.push(s.to_string());
    }
    ac.text = text.to_string();
    ac.update_filtered();
    ac.filtered_indices.clone()
}

#[test]
fn filter_substring_match() {
    let indices = filtered(&["Apple", "Banana", "Pineapple"], "app");
    assert!(indices.contains(&0), "should match Apple");
    assert!(indices.contains(&2), "should match Pineapple");
    assert!(!indices.contains(&1), "should not match Banana");
}

#[test]
fn filter_case_insensitive() {
    let indices = filtered(&["banana", "cherry"], "BANANA");
    assert_eq!(indices, vec![0]);
}

#[test]
fn filter_empty_returns_all() {
    let indices = filtered(&["A", "B", "C"], "");
    assert_eq!(indices, vec![0, 1, 2]);
}

#[test]
fn filter_no_match() {
    let indices = filtered(&["Apple", "Banana"], "xyz");
    assert!(indices.is_empty());
}

#[test]
fn max_suggestions_capped() {
    let items: Vec<&str> = (0..20).map(|_| "item").collect();
    let mut ac = AutoComplete::new().max_suggestions(3);
    for item in &items {
        ac.suggestions.push(item.to_string());
    }
    ac.text = String::new();
    ac.update_filtered();
    assert_eq!(ac.filtered_indices.len(), 3);
}

#[test]
fn zero_limit_still_offers_one() {
    let mut ac = AutoComplete::new().max_suggestions(0);
    ac.suggestions = vec!["a".to_string(), "b".to_string()];
    ac.update_filtered();
    assert_eq!(ac.filtered_indices, vec![0]);
}

#[test]
fn autocomplete_default_values() {
    let ac = AutoComplete::new();
    assert_eq!(ac.max_suggestions, 8);
    assert_eq!(ac.placeholder, "Search...");
    assert!(ac.suggestions.is_empty());
    assert!(ac.text.is_empty());
    assert!(!ac.open);
    assert!(!ac.focused);
    assert!(!ac.error);
    assert_eq!(ac.display_text(), "Search...");
}

#[test]
fn typing_filters_and_opens() {
    let mut ac = AutoComplete::new()
        .suggestion("Apple".to_string())
        .suggestion("Banana".to_string())
        .suggestion("Pineapple".to_string());
    let r = ac.char_typed('a');
    assert_eq!(r.response.status, Status::Ignored);
    assert!(ac.text.is_empty());
    let r = ac.click(true);
    assert_eq!(r.response.cursor, Some(Cursor::Text));
    assert_eq!(r.anim, Some(true));
    assert!(ac.open && ac.focused);
    let r = ac.char_typed('P');
    assert!(r.changed);
    assert_eq!(ac.text, "P");
    assert_eq!(ac.filtered_indices, vec![0, 2]);
    let r = ac.char_typed('\u{7}');
    assert_eq!(r.response.status, Status::Ignored);
    assert_eq!(ac.text, "P");
    ac.char_typed('q');
    assert!(ac.filtered_indices.is_empty());
    assert!(!ac.open);
    let r = ac.key_pressed(Key::Backspace);
    assert!(r.changed);
    assert_eq!(ac.text, "P");
    assert!(ac.open);
    assert_eq!(r.anim, Some(true));
}

#[test]
fn keyboard_choice() {
    let mut ac = AutoComplete::new()
        .suggestion("Apple".to_string())
        .suggestion("Banana".to_string())
        .suggestion("Pineapple".to_string());
    ac.click(true);
    ac.char_typed('a');
    assert_eq!(ac.filtered_indices, vec![0, 1, 2]);
    let r = ac.key_pressed(Key::Enter);
    assert_eq!(r.chosen, None);
    ac.key_pressed(Key::Down);
    assert_eq!(ac.hover_index, Some(0));
    ac.key_pressed(Key::Down);
    ac.key_pressed(Key::Down);
    ac.key_pressed(Key::Down);
    assert_eq!(ac.hover_index, Some(2));
    ac.key_pressed(Key::Up);
    assert_eq!(ac.hover_index, Some(1));
    let r = ac.key_pressed(Key::Enter);
    assert_eq!(r.chosen, Some(1));
    assert_eq!(ac.text, "Banana");
    assert_eq!(ac.selected, Some(1));
    assert!(!ac.open);
    let r = ac.key_pressed(Key::Tab);
    assert_eq!(r.response.status, Status::Ignored);
}

#[test]
fn dropdown_clicks() {
    let mut ac = AutoComplete::new()
        .suggestion("one".to_string())
        .suggestion("two".to_string());
    let r = ac.overlay_click(true, Some(0));
    assert_eq!(r.response.status, Status::Ignored);
    ac.click(true);
    ac.update_filtered();
    let r = ac.overlay_moved(Some(5));
    assert_eq!(r.cursor, Some(Cursor::Pointer));
    assert_eq!(ac.hover_index, None);
    ac.overlay_moved(Some(1));
    assert_eq!(ac.hover_index, Some(1));
    let r = ac.overlay_click(false, Some(1));
    assert_eq!(r.response.status, Status::Canceled);
    assert!(ac.open);
    let r = ac.overlay_click(true, Some(1));
    assert_eq!(r.chosen, Some(1));
    assert_eq!(ac.text, "two");
    ac.click(true);
    let r = ac.overlay_click(true, None);
    assert_eq!(r.response.status, Status::Canceled);
    assert!(!ac.open && !ac.focused);
    let r = ac.click(false);
    assert_eq!(r.response.status, Status::Ignored);
    assert_eq!(r.anim, Some(false));
}
