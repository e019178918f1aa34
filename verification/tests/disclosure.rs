use aurora_ui::disclosure::{Accordion, Checkbox, Collapsible};

fn three() -> Accordion {
    Accordion::new()
        .section("One".to_string())
        .section("Two".to_string())
        .section("Three".to_string())
}

#[test]
fn one_section_open_at_a_time() {
    let mut a = three().expanded(0).expanded(2);
    assert_eq!(a.expanded, vec![true, false, true]);
    let t = a.toggle(1);
    assert!(t.expanded && t.others_collapsed);
    assert_eq!(a.expanded, vec![false, true, false]);
    let t = a.toggle(1);
    assert!(!t.expanded && !t.others_collapsed);
    assert_eq!(a.expanded, vec![false, false, false]);
}

#[test]
fn several_sections_may_open() {
    let mut a = three().allow_multiple(true).expanded(7);
    assert_eq!(a.expanded, vec![false, false, false]);
    a.toggle(0);
    let t = a.toggle(2);
    assert!(!t.others_collapsed);
    assert_eq!(a.expanded, vec![true, false, true]);
    a.toggle(2);
    a.toggle(2);
    assert_eq!(a.expanded, vec![true, false, true]);
}

#[test]
fn collapsible_and_checkbox() {
    let mut c = Collapsible::new("More".to_string());
    assert!(c.header_pressed());
    assert!(!c.header_pressed());
    let mut b = Checkbox::new().label("Accept".to_string());
    assert_eq!(b.pressed(), Some(true));
    assert_eq!(b.pressed(), Some(false));
    let mut d = Checkbox::new().checked(true).disabled(true);
    assert_eq!(d.pressed(), None);
    assert!(d.checked);
}
