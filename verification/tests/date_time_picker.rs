use aurora_ui::date_time_picker::{day_of_week, days_in_month, format_display, DateTimePicker};

#[test]
fn days_in_month_february_leap() {
    assert_eq!(days_in_month(2024, 2), 29);
    assert_eq!(days_in_month(2000, 2), 29);
    assert_eq!(days_in_month(2400, 2), 29);
}

#[test]
fn days_in_month_february_non_leap() {
    assert_eq!(days_in_month(2023, 2), 28);
    assert_eq!(days_in_month(1900, 2), 28);
    assert_eq!(days_in_month(2100, 2), 28);
}

#[test]
fn days_in_month_regular() {
    assert_eq!(days_in_month(2026, 1), 31);
    assert_eq!(days_in_month(2026, 4), 30);
    assert_eq!(days_in_month(2026, 7), 31);
    assert_eq!(days_in_month(2026, 9), 30);
    assert_eq!(days_in_month(2026, 12), 31);
}

#[test]
fn format_display_24h() {
    let s = format_display(2026, 4, 1, 14, 30, 0, false, true);
    assert_eq!(s, "2026-04-01 14:30");
}

#[test]
fn format_display_24h_with_seconds() {
    let s = format_display(2026, 4, 1, 14, 30, 45, true, true);
    assert_eq!(s, "2026-04-01 14:30:45");
}

#[test]
fn format_display_12h() {
    let s = format_display(2026, 4, 1, 14, 30, 0, false, false);
    assert_eq!(s, "2026-04-01 02:30 PM");
}

#[test]
fn format_display_12h_midnight() {
    let s = format_display(2026, 1, 1, 0, 0, 0, false, false);
    assert_eq!(s, "2026-01-01 12:00 AM");
}

#[test]
fn format_display_12h_noon() {
    let s = format_display(2026, 6, 15, 12, 0, 0, false, false);
    assert_eq!(s, "2026-06-15 12:00 PM");
}

#[test]
fn day_selection() {
    let picker = DateTimePicker::new()
        .year(2026)
        .month(4)
        .day(15)
        .hour(10)
        .minute(30);
    assert_eq!(picker.year, 2026);
    assert_eq!(picker.month, 4);
    assert_eq!(picker.day, 15);
    assert_eq!(picker.hour, 10);
    assert_eq!(picker.minute, 30);
}

#[test]
fn day_of_week_known_dates() {
    // 2026-04-01 is a Wednesday (0=Sun, 3=Wed)
    assert_eq!(day_of_week(2026, 4, 1), 3);
    // 2024-01-01 is a Monday (0=Sun, 1=Mon)
    assert_eq!(day_of_week(2024, 1, 1), 1);
}

#[test]
fn clamp_values() {
    let picker = DateTimePicker::new()
        .month(0)
        .day(0)
        .hour(255)
        .minute(255)
        .second(255);
    assert_eq!(picker.month, 1);
    assert_eq!(picker.day, 1);
    assert_eq!(picker.hour, 23);
    assert_eq!(picker.minute, 59);
    assert_eq!(picker.second, 59);
}

#[test]
fn date_time_picker_default_values() {
    let picker = DateTimePicker::new();
    assert_eq!(picker.year, 2026);
    assert_eq!(picker.month, 1);
    assert_eq!(picker.day, 1);
    assert_eq!(picker.hour, 0);
    assert_eq!(picker.minute, 0);
    assert_eq!(picker.second, 0);
    assert!(picker.format_24h);
    assert!(!picker.show_seconds);
    assert!(!picker.open);
}

#[test]
fn builder_chaining() {
    let picker = DateTimePicker::new()
        .year(2026)
        .month(12)
        .day(25)
        .hour(23)
        .minute(59)
        .second(59)
        .format_24h(false)
        .show_seconds(true)
        .error(true);
    assert_eq!(picker.year, 2026);
    assert_eq!(picker.month, 12);
    assert_eq!(picker.day, 25);
    assert_eq!(picker.hour, 23);
    assert_eq!(picker.minute, 59);
    assert_eq!(picker.second, 59);
    assert!(!picker.format_24h);
    assert!(picker.show_seconds);
    assert!(picker.error);
    assert_eq!(picker.display_text(), "2026-12-25 11:59:59 PM");
}

#[test]
fn spinners_wrap_around() {
    let mut p = DateTimePicker::new().hour(23).minute(59).second(0);
    assert_eq!(p.hour_up(), (2026, 1, 1, 0, 59, 0));
    assert_eq!(p.minute_up(), (2026, 1, 1, 0, 0, 0));
    assert_eq!(p.second_down(), (2026, 1, 1, 0, 0, 59));
    assert_eq!(p.hour_down(), (2026, 1, 1, 23, 0, 59));
    assert_eq!(p.minute_down(), (2026, 1, 1, 23, 59, 59));
    assert_eq!(p.second_up(), (2026, 1, 1, 23, 59, 0));
}

#[test]
fn select_day_clamps_to_month_length() {
    let mut p = DateTimePicker::new().year(2023).month(2);
    let m = p.select_day(31);
    assert_eq!(m, (2023, 2, 28, 0, 0, 0));
    p.next_view_month();
    p.next_view_month();
    p.prev_view_month();
    assert_eq!((p.view_year, p.view_month), (2023, 3));
    let mut q = DateTimePicker::new().month(12);
    q.next_view_month();
    assert_eq!((q.view_year, q.view_month), (2027, 1));
    q.prev_view_month();
    assert_eq!((q.view_year, q.view_month), (2026, 12));
}

#[test]
fn calendar_grid_of_view_month() {
    let mut p = DateTimePicker::new().year(2026).month(4);
    p.refresh_calendar();
    assert_eq!(p.computed_days_in_month, 30);
    assert_eq!(p.computed_first_weekday, 3);
    assert_eq!(p.total_rows(), 5);
    assert_eq!(p.day_at_cell(0, 2), None);
    assert_eq!(p.day_at_cell(0, 3), Some(1));
    assert_eq!(p.day_at_cell(4, 4), Some(30));
    assert_eq!(p.day_at_cell(4, 5), None);
    assert_eq!(p.day_at_cell(0, 7), None);
}

#[test]
fn toggle_open_resets_view() {
    let mut p = DateTimePicker::new().year(2026).month(5);
    p.next_view_month();
    p.close();
    p.toggle_open();
    assert!(p.open);
    assert_eq!((p.view_year, p.view_month), (2026, 5));
    p.toggle_open();
    assert!(!p.open);
}

#[test]
fn negative_year_display() {
    assert_eq!(format_display(-5, 3, 9, 7, 5, 0, false, true), "-005-03-09 07:05");
}
