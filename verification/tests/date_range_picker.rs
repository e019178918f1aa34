use aurora_ui::date_range_picker::{
    advance_month, day_of_week, days_in_month, first_weekday, month_name, DateRangePicker,
};

#[test]
fn range_selection() {
    let mut picker = DateRangePicker::new();
    assert!(!picker.has_start());
    assert!(!picker.has_end());

    // First click sets start
    picker.select_day(2026, 4, 10);
    assert_eq!(picker.start_year, 2026);
    assert_eq!(picker.start_month, 4);
    assert_eq!(picker.start_day, 10);
    assert!(picker.selecting_end);
    assert!(!picker.has_end());

    // Second click sets end
    picker.select_day(2026, 4, 20);
    assert_eq!(picker.end_year, 2026);
    assert_eq!(picker.end_month, 4);
    assert_eq!(picker.end_day, 20);
    assert!(!picker.selecting_end);
    assert!(picker.has_range());
}

#[test]
fn start_after_end_swaps() {
    let mut picker = DateRangePicker::new();

    // First click: set start to a later date
    picker.select_day(2026, 5, 20);
    assert!(picker.selecting_end);

    // Second click: set end to an earlier date => should swap
    picker.select_day(2026, 3, 5);
    assert_eq!(picker.start_year, 2026);
    assert_eq!(picker.start_month, 3);
    assert_eq!(picker.start_day, 5);
    assert_eq!(picker.end_year, 2026);
    assert_eq!(picker.end_month, 5);
    assert_eq!(picker.end_day, 20);
}

#[test]
fn days_in_month_leap() {
    // 2024 is a leap year
    assert_eq!(days_in_month(2024, 2), 29);
    // 2023 is not
    assert_eq!(days_in_month(2023, 2), 28);
    // 1900 is not (divisible by 100 but not 400)
    assert_eq!(days_in_month(1900, 2), 28);
    // 2000 is a leap year (divisible by 400)
    assert_eq!(days_in_month(2000, 2), 29);
    // Regular months
    assert_eq!(days_in_month(2026, 1), 31);
    assert_eq!(days_in_month(2026, 4), 30);
}

#[test]
fn month_navigation() {
    let mut picker = DateRangePicker::new();
    picker.left_year = 2026;
    picker.left_month = 1;

    // Navigate forward
    picker.next_month();
    assert_eq!(picker.left_year, 2026);
    assert_eq!(picker.left_month, 2);

    // Navigate to next year
    picker.left_month = 12;
    picker.next_month();
    assert_eq!(picker.left_year, 2027);
    assert_eq!(picker.left_month, 1);

    // Navigate backward
    picker.prev_month();
    assert_eq!(picker.left_year, 2026);
    assert_eq!(picker.left_month, 12);

    // Navigate backward across year boundary
    picker.left_month = 1;
    picker.prev_month();
    assert_eq!(picker.left_year, 2025);
    assert_eq!(picker.left_month, 12);
}

#[test]
fn display_format() {
    let picker = DateRangePicker::new();
    assert_eq!(picker.display_text(), "Pick a date range");

    let mut picker = DateRangePicker::new();
    picker.select_day(2026, 4, 1);
    assert_eq!(picker.display_text(), "2026-04-01  \u{2014}  ...");

    picker.select_day(2026, 4, 15);
    assert_eq!(picker.display_text(), "2026-04-01  \u{2014}  2026-04-15");
}

#[test]
fn right_calendar_wraps() {
    let picker = DateRangePicker::new().left_month(2026, 12);
    let (ry, rm) = picker.right_year_month();
    assert_eq!(ry, 2027);
    assert_eq!(rm, 1);
}

#[test]
fn is_in_range_works() {
    let mut picker = DateRangePicker::new();
    picker.select_day(2026, 3, 10);
    picker.select_day(2026, 3, 20);

    assert!(picker.is_in_range(2026, 3, 10));
    assert!(picker.is_in_range(2026, 3, 15));
    assert!(picker.is_in_range(2026, 3, 20));
    assert!(!picker.is_in_range(2026, 3, 9));
    assert!(!picker.is_in_range(2026, 3, 21));
}

#[test]
fn date_range_picker_default_values() {
    let picker = DateRangePicker::new();
    assert_eq!(picker.start_year, 0);
    assert_eq!(picker.start_month, 0);
    assert_eq!(picker.start_day, 0);
    assert_eq!(picker.end_year, 0);
    assert_eq!(picker.end_month, 0);
    assert_eq!(picker.end_day, 0);
    assert!(!picker.selecting_end);
    assert!(!picker.open);
    assert!(!picker.error);
}

#[test]
fn weekdays_and_names() {
    assert_eq!(day_of_week(2026, 4, 1), 3);
    assert_eq!(day_of_week(2024, 1, 1), 1);
    assert_eq!(first_weekday(2026, 3), 0);
    assert_eq!(month_name(4), "April");
    assert_eq!(month_name(13), "???");
    assert_eq!(advance_month(2026, 12), (2027, 1));
    assert_eq!(advance_month(2026, 3), (2026, 4));
}

#[test]
fn range_endpoints_and_grid() {
    let mut picker = DateRangePicker::new();
    assert_eq!(picker.select_day(2026, 4, 2), None);
    assert!(picker.is_in_range(2026, 4, 2));
    assert!(!picker.is_in_range(2026, 4, 3));
    assert_eq!(picker.select_day(2026, 4, 9), Some(((2026, 4, 2), (2026, 4, 9))));
    assert!(picker.is_range_endpoint(2026, 4, 9));
    assert!(!picker.is_range_endpoint(2026, 4, 5));
    // April 2026 starts on a Wednesday.
    assert_eq!(picker.day_at_cell(0, 2, 2026, 4), None);
    assert_eq!(picker.day_at_cell(0, 3, 2026, 4), Some(1));
    assert_eq!(picker.day_at_cell(4, 4, 2026, 4), Some(30));
    assert_eq!(picker.day_at_cell(4, 5, 2026, 4), None);
    assert_eq!(picker.day_at_cell(6, 0, 2026, 4), None);
    picker.toggle_open();
    assert!(picker.open);
    picker.close();
    assert!(!picker.open);
}
