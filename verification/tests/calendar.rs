use aurora_ui::calendar::{Calendar, CalendarRange, CellIndicator, DatePicker, IndicatorStyle, PickerPress, RangePress, SelectorView};
use aurora_ui::theme::Color;

#[test]
fn month_grid_of_april_2026() {
    let mut c = Calendar::new().year(2026).month(4);
    c.refresh();
    assert_eq!(c.days_in_month, 30);
    // 1 April 2026 is a Wednesday (Sunday = 0).
    assert_eq!(c.first_weekday, 3);
    assert_eq!(c.prev_month_days, 31);
    assert_eq!(c.total_rows(), 5);
    assert_eq!(c.day_in_grid(0, 2), None);
    assert_eq!(c.day_in_grid(0, 3), Some(1));
    assert_eq!(c.day_in_grid(4, 4), Some(30));
    assert_eq!(c.day_in_grid(4, 5), None);
    assert_eq!(c.day_in_grid(5, 0), None);
    assert_eq!(c.prev_trailing_days(), vec![29, 30, 31]);
    assert_eq!(c.next_trailing_count(), 2);
}

#[test]
fn month_names() {
    assert_eq!(Calendar::month_name(1), "January");
    assert_eq!(Calendar::month_name(12), "December");
    assert_eq!(Calendar::month_name(13), "");
    assert_eq!(Calendar::month_name_short(9), "Sep");
    assert_eq!(Calendar::compute_days_in_month(2024, 2), 29);
    assert_eq!(Calendar::compute_days_in_month(1900, 2), 28);
}

#[test]
fn navigation_respects_limits() {
    let mut c = Calendar::new().year(2026).month(3).min_date(2026, 2, 10).max_date(2026, 4, 5);
    assert!(c.can_go_prev());
    assert!(c.prev_month());
    assert_eq!((c.year, c.month), (2026, 2));
    assert!(!c.prev_month());
    assert_eq!((c.year, c.month), (2026, 2));
    assert!(c.next_month());
    assert!(c.next_month());
    assert!(!c.next_month());
    assert_eq!((c.year, c.month), (2026, 4));
    let mut wrap = Calendar::new().year(2026).month(1);
    assert!(wrap.prev_month());
    assert_eq!((wrap.year, wrap.month), (2025, 12));
    assert!(wrap.next_month());
    assert_eq!((wrap.year, wrap.month), (2026, 1));
}

#[test]
fn disabled_days_cannot_be_selected() {
    let mut c = Calendar::new().year(2026).month(2).disabled_day(14).min_date(2026, 2, 3).max_date(2026, 2, 20);
    assert!(c.is_day_disabled(14));
    assert!(c.is_day_disabled(2));
    assert!(c.is_day_disabled(21));
    assert!(!c.is_day_disabled(3));
    assert!(!c.select_day(14));
    assert_eq!(c.selected_day, None);
    assert!(c.select_day(20));
    assert_eq!(c.selected_day, Some(20));
    assert!(!c.hover_day(1));
    assert_eq!(c.hovered_day, None);
    assert!(c.hover_day(5));
    assert_eq!(c.hovered_day, Some(5));
}

#[test]
fn selector_columns() {
    let mut c = Calendar::new().year(2026).month(5);
    assert_eq!(Calendar::selector_month_at(0), Some(1));
    assert_eq!(Calendar::selector_month_at(12), None);
    assert_eq!(c.selector_year_at(0), Some(2016));
    assert_eq!(c.selector_year_at(20), Some(2036));
    c.open_selector(SelectorView::YearColumn);
    assert_eq!(c.selector_view, SelectorView::YearColumn);
    assert_eq!(c.choose_year(2030), (2030, 5));
    assert_eq!(c.choose_month(11), (2030, 11));
    let early = Calendar::new().year(5);
    assert_eq!(early.selector_year_at(0), None);
    assert_eq!(early.selector_year_at(6), Some(1));
}

#[test]
fn tooltip_of_hovered_day() {
    let dot = |day: u32, tip: Option<&str>| CellIndicator {
        day,
        color: Color::new(1, 2, 3, 255),
        style: IndicatorStyle::Dot,
        tooltip: tip.map(|t| t.to_string()),
    };
    let mut c = Calendar::new()
        .indicator(dot(3, None))
        .indicator(dot(5, Some("Meeting")))
        .indicator(dot(5, Some("Later")));
    assert_eq!(c.tooltip_indicator(), None);
    c.hover_day(5);
    assert_eq!(c.tooltip_indicator(), Some(1));
    c.hover_day(3);
    assert_eq!(c.tooltip_indicator(), None);
}

#[test]
fn range_calendar_picks_two_days() {
    let mut r = CalendarRange::new();
    r.calendar = Calendar::new().year(2026).month(3).disabled_day(9);
    assert_eq!(r.day_pressed(9), RangePress::ToCalendar);
    assert_eq!(r.day_pressed(20), RangePress::Started);
    assert_eq!(r.range_ordered(), None);
    assert_eq!(r.day_pressed(12), RangePress::Completed(12, 20));
    assert_eq!(r.range_ordered(), Some((12, 20)));
    assert_eq!(r.day_pressed(3), RangePress::Started);
    assert_eq!((r.range_start, r.range_end), (Some(3), None));
}

#[test]
fn date_picker_text_and_dropdown() {
    let mut p = DatePicker::new();
    assert_eq!(p.display_text(), "Pick a date");
    p.year = 987;
    p.month = 3;
    p.selected_day = Some(7);
    assert_eq!(p.display_text(), "0987-03-07");
    assert_eq!(p.press(false, true), PickerPress::Ignored);
    assert_eq!(p.press(true, false), PickerPress::Toggled);
    assert!(p.open);
    assert_eq!(p.press(false, true), PickerPress::ToCalendar);
    assert_eq!(p.press(false, false), PickerPress::Closed);
    assert!(!p.open);
}
