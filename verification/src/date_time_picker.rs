//! State and rules of the combined date and time picker.
use vstd::prelude::*;
use crate::dates::{
    day_in_cell, grid_rows, is_leap, month_length, month_offset_value, next_month_of, prev_month_of,
    weekday,
};
use crate::calendar::{first_weekday_fits, Calendar};
use crate::text::{padded, push_char, push_padded, push_signed_padded, signed_padded};

verus! {

/// Days in `month` of `year`; out-of-range months count 30 days.
pub fn days_in_month(year: i32, month: u32) -> (days: u32)
    ensures
        days == month_length(is_leap(year as int), month as int),
{
    if month == 1 || month == 3 || month == 5 || month == 7 || month == 8 || month == 10
        || month == 12 {
        31
    } else if month == 4 || month == 6 || month == 9 || month == 11 {
        30
    } else if month == 2 {
        if year % 4 == 0 && (year % 100 != 0 || year % 400 == 0) {
            29
        } else {
            28
        }
    } else {
        30
    }
}

/// Day of the week (0 = Sunday ... 6 = Saturday) by Sakamoto's method,
/// computed in 64-bit arithmetic. A negative remainder (dates before the
/// year 1) is reinterpreted as a `u32`, as the cast in the formula does.
pub fn day_of_week(year: i32, month: u32, day: u32) -> (dow: u32)
    requires
        1 <= month <= 12,
    ensures
        weekday(year as int, month as int, day as int) >= 0 ==> dow == weekday(
            year as int,
            month as int,
            day as int,
        ),
        weekday(year as int, month as int, day as int) < 0 ==> dow == weekday(
            year as int,
            month as int,
            day as int,
        ) + 0x1_0000_0000,
{
    let t = month_offset_value(month) as i64;
    let y: i64 = if month <= 2 { year as i64 - 1 } else { year as i64 };
    let d = day as i64;
    let v = (d + t + y + y / 4 - y / 100 + y / 400) % 7;
    if v >= 0 {
        v as u32
    } else {
        (v + 0x1_0000_0000) as u32
    }
}

/// Hour on a 12-hour clock and whether it is after noon.
pub open spec fn twelve_hour(hour: int) -> (int, bool) {
    if hour == 0 {
        (12, false)
    } else if hour < 12 {
        (hour, false)
    } else if hour == 12 {
        (12, true)
    } else {
        (hour - 12, true)
    }
}

/// `YYYY-MM-DD` as `{:04}-{:02}-{:02}` prints it.
pub open spec fn date_text(year: int, month: nat, day: nat) -> Seq<char> {
    signed_padded(year, 4) + seq!['-'] + padded(month, 2) + seq!['-'] + padded(day, 2)
}

/// `HH:MM` or `HH:MM:SS`, each field zero-padded to two digits.
pub open spec fn time_text(clock: nat, minute: nat, second: nat, show_seconds: bool) -> Seq<char> {
    let hm = padded(clock, 2) + seq![':'] + padded(minute, 2);
    if show_seconds { hm + seq![':'] + padded(second, 2) } else { hm }
}

/// Suffix of the 12-hour format: `" AM"` or `" PM"`; empty in 24-hour format.
pub open spec fn meridiem_text(hour: int, format_24h: bool) -> Seq<char> {
    if format_24h {
        Seq::empty()
    } else if twelve_hour(hour).1 {
        seq![' ', 'P', 'M']
    } else {
        seq![' ', 'A', 'M']
    }
}

/// Text shown in the picker's trigger: `YYYY-MM-DD HH:MM[:SS]`, with the
/// hour on a 12-hour clock followed by AM/PM unless `format_24h`.
pub open spec fn display_text_of(
    year: int,
    month: nat,
    day: nat,
    hour: nat,
    minute: nat,
    second: nat,
    show_seconds: bool,
    format_24h: bool,
) -> Seq<char> {
    let clock = if format_24h { hour } else { twelve_hour(hour as int).0 as nat };
    date_text(year, month, day) + seq![' '] + time_text(clock, minute, second, show_seconds)
        + meridiem_text(hour as int, format_24h)
}

/// Law: in 12-hour format the text is the date, a space, the time with the
/// hour shown as `hour % 12` (12 in place of 0), and `" AM"` for the hours
/// 0 to 11 or `" PM"` for 12 to 23; in 24-hour format the hour is shown as
/// it is and nothing follows the time.
pub proof fn lemma_display_clock(
    year: int,
    month: nat,
    day: nat,
    hour: nat,
    minute: nat,
    second: nat,
    show_seconds: bool,
)
    requires
        hour <= 23,
    ensures
        ({
            let clock: nat = if hour % 12 == 0 { 12 } else { hour % 12 };
            display_text_of(year, month, day, hour, minute, second, show_seconds, false)
                == date_text(year, month, day) + seq![' '] + time_text(clock, minute, second, show_seconds)
                + (if hour < 12 { seq![' ', 'A', 'M'] } else { seq![' ', 'P', 'M'] })
        }),
        display_text_of(year, month, day, hour, minute, second, show_seconds, true)
            == date_text(year, month, day) + seq![' '] + time_text(hour, minute, second, show_seconds),
{
    let clock: nat = if hour % 12 == 0 { 12 } else { hour % 12 };
    assert(twelve_hour(hour as int).0 == clock);
    assert(twelve_hour(hour as int).1 == (hour >= 12));
    assert(display_text_of(year, month, day, hour, minute, second, show_seconds, true)
        =~= date_text(year, month, day) + seq![' '] + time_text(hour, minute, second, show_seconds));
}

pub(crate) fn push_date(s: &mut String, year: i32, month: u32, day: u32)
    ensures
        final(s)@ == old(s)@ + date_text(year as int, month as nat, day as nat),
{
    let ghost start = s@;
    push_signed_padded(s, year, 4);
    push_char(s, '-');
    push_padded(s, month as u64, 2);
    push_char(s, '-');
    push_padded(s, day as u64, 2);
    assert(s@ =~= start + date_text(year as int, month as nat, day as nat));
}

fn push_time(s: &mut String, clock: u8, minute: u8, second: u8, show_seconds: bool)
    ensures
        final(s)@ == old(s)@ + time_text(clock as nat, minute as nat, second as nat, show_seconds),
{
    let ghost start = s@;
    push_padded(s, clock as u64, 2);
    push_char(s, ':');
    push_padded(s, minute as u64, 2);
    if show_seconds {
        push_char(s, ':');
        push_padded(s, second as u64, 2);
    }
    assert(s@ =~= start + time_text(clock as nat, minute as nat, second as nat, show_seconds));
}

fn push_meridiem(s: &mut String, hour: u8, format_24h: bool)
    ensures
        final(s)@ == old(s)@ + meridiem_text(hour as int, format_24h),
{
    let ghost start = s@;
    if !format_24h {
        push_char(s, ' ');
        if hour >= 12 {
            push_char(s, 'P');
        } else {
            push_char(s, 'A');
        }
        push_char(s, 'M');
    }
    assert(s@ =~= start + meridiem_text(hour as int, format_24h));
}

/// Formats the selected date and time for display.
pub fn format_display(
    year: i32,
    month: u32,
    day: u32,
    hour: u8,
    minute: u8,
    second: u8,
    show_seconds: bool,
    format_24h: bool,
) -> (text: String)
    ensures
        text@ == display_text_of(
            year as int,
            month as nat,
            day as nat,
            hour as nat,
            minute as nat,
            second as nat,
            show_seconds,
            format_24h,
        ),
{
    let mut s = String::new();
    push_date(&mut s, year, month, day);
    push_char(&mut s, ' ');
    let clock: u8 = if format_24h {
        hour
    } else if hour == 0 {
        12
    } else if hour <= 12 {
        hour
    } else {
        hour - 12
    };
    push_time(&mut s, clock, minute, second, show_seconds);
    push_meridiem(&mut s, hour, format_24h);
    s
}


/// A date and time picker: a trigger showing the selected date and time,
/// and a dropdown with a month grid and hour/minute/second spinners.
pub struct DateTimePicker {
    pub year: i32,
    pub month: u32,
    pub day: u32,
    pub hour: u8,
    pub minute: u8,
    pub second: u8,
    pub format_24h: bool,
    pub show_seconds: bool,
    pub open: bool,
    pub view_year: i32,
    pub view_month: u32,
    pub hover_day: Option<u32>,
    /// Spinner under the pointer: 0 hour, 1 minute, 2 second.
    pub hover_time_field: Option<u8>,
    pub computed_days_in_month: u32,
    pub computed_first_weekday: u32,
    pub error: bool,
}

/// The selected moment as handed to the change callback.
pub type Moment = (i32, u32, u32, u8, u8, u8);

impl DateTimePicker {
    /// Clock fields are in range and the shown month is in `1..=12`.
    pub open spec fn wf(&self) -> bool {
        &&& self.hour <= 23
        &&& self.minute <= 59
        &&& self.second <= 59
        &&& 1 <= self.view_month <= 12
    }

    pub open spec fn moment(&self) -> Moment {
        (self.year, self.month, self.day, self.hour, self.minute, self.second)
    }

    /// 1 January 2026, 00:00:00, 24-hour format without seconds, closed.
    pub fn new() -> (p: DateTimePicker)
        ensures
            p == (DateTimePicker {
                year: 2026,
                month: 1,
                day: 1,
                hour: 0,
                minute: 0,
                second: 0,
                format_24h: true,
                show_seconds: false,
                open: false,
                view_year: 2026,
                view_month: 1,
                hover_day: None,
                hover_time_field: None,
                computed_days_in_month: 31,
                computed_first_weekday: 0,
                error: false,
            }),
            p.wf(),
    {
        DateTimePicker {
            year: 2026,
            month: 1,
            day: 1,
            hour: 0,
            minute: 0,
            second: 0,
            format_24h: true,
            show_seconds: false,
            open: false,
            view_year: 2026,
            view_month: 1,
            hover_day: None,
            hover_time_field: None,
            computed_days_in_month: 31,
            computed_first_weekday: 0,
            error: false,
        }
    }

    /// Sets the year and shows it.
    pub fn year(self, year: i32) -> (p: DateTimePicker)
        ensures
            p == (DateTimePicker { year, view_year: year, ..self }),
    {
        DateTimePicker { year, view_year: year, ..self }
    }

    /// Sets the month, clamped into `1..=12`, and shows it.
    pub fn month(self, month: u32) -> (p: DateTimePicker)
        requires
            self.wf(),
        ensures
            ({
                let m = if month < 1 { 1 } else if month > 12 { 12 } else { month };
                p == (DateTimePicker { month: m, view_month: m, ..self })
            }),
            p.wf(),
    {
        let m = if month < 1 { 1 } else if month > 12 { 12 } else { month };
        DateTimePicker { month: m, view_month: m, ..self }
    }

    /// Sets the day, clamped into `1..=31`.
    pub fn day(self, day: u32) -> (p: DateTimePicker)
        ensures
            p == (DateTimePicker { day: if day < 1 { 1 } else if day > 31 { 31 } else { day }, ..self }),
    {
        let d = if day < 1 { 1 } else if day > 31 { 31 } else { day };
        DateTimePicker { day: d, ..self }
    }

    /// Sets the hour, capped at 23.
    pub fn hour(self, hour: u8) -> (p: DateTimePicker)
        ensures
            p == (DateTimePicker { hour: if hour > 23 { 23 } else { hour }, ..self }),
    {
        DateTimePicker { hour: if hour > 23 { 23 } else { hour }, ..self }
    }

    /// Sets the minute, capped at 59.
    pub fn minute(self, minute: u8) -> (p: DateTimePicker)
        ensures
            p == (DateTimePicker { minute: if minute > 59 { 59 } else { minute }, ..self }),
    {
        DateTimePicker { minute: if minute > 59 { 59 } else { minute }, ..self }
    }

    /// Sets the second, capped at 59.
    pub fn second(self, second: u8) -> (p: DateTimePicker)
        ensures
            p == (DateTimePicker { second: if second > 59 { 59 } else { second }, ..self }),
    {
        DateTimePicker { second: if second > 59 { 59 } else { second }, ..self }
    }

    pub fn format_24h(self, v: bool) -> (p: DateTimePicker)
        ensures
            p == (DateTimePicker { format_24h: v, ..self }),
    {
        DateTimePicker { format_24h: v, ..self }
    }

    pub fn show_seconds(self, v: bool) -> (p: DateTimePicker)
        ensures
            p == (DateTimePicker { show_seconds: v, ..self }),
    {
        DateTimePicker { show_seconds: v, ..self }
    }

    pub fn error(self, v: bool) -> (p: DateTimePicker)
        ensures
            p == (DateTimePicker { error: v, ..self }),
    {
        DateTimePicker { error: v, ..self }
    }

    /// Text of the trigger.
    pub fn display_text(&self) -> (text: String)
        ensures
            text@ == display_text_of(
                self.year as int,
                self.month as nat,
                self.day as nat,
                self.hour as nat,
                self.minute as nat,
                self.second as nat,
                self.show_seconds,
                self.format_24h,
            ),
    {
        format_display(
            self.year,
            self.month,
            self.day,
            self.hour,
            self.minute,
            self.second,
            self.show_seconds,
            self.format_24h,
        )
    }

    /// Caps the day at the length of the selected month.
    pub fn clamp_day(&mut self)
        ensures
            ({
                let max_day = month_length(is_leap(old(self).year as int), old(self).month as int);
                *final(self) == (DateTimePicker {
                    day: if old(self).day > max_day { max_day as u32 } else { old(self).day },
                    ..*old(self)
                })
            }),
    {
        let max_day = days_in_month(self.year, self.month);
        if self.day > max_day {
            self.day = max_day;
        }
    }

    /// Recomputes the grid of the shown month.
    pub fn refresh_calendar(&mut self)
        requires
            old(self).wf(),
            first_weekday_fits((old(self).view_year as u32) as int, old(self).view_month as int),
        ensures
            *final(self) == (DateTimePicker {
                computed_days_in_month: month_length(
                    is_leap(old(self).view_year as int),
                    old(self).view_month as int,
                ) as u32,
                computed_first_weekday: weekday(
                    (old(self).view_year as u32) as int,
                    old(self).view_month as int,
                    1,
                ) as u32,
                ..*old(self)
            }),
    {
        self.computed_days_in_month = days_in_month(self.view_year, self.view_month);
        self.computed_first_weekday = Calendar::first_day_of_week(self.view_year as u32, self.view_month);
    }

    /// Rows of the day grid.
    pub fn total_rows(&self) -> (rows: u32)
        requires
            self.computed_first_weekday + self.computed_days_in_month <= u32::MAX,
        ensures
            rows == grid_rows(self.computed_first_weekday as int, self.computed_days_in_month as int),
    {
        let cells = self.computed_first_weekday + self.computed_days_in_month;
        cells / 7 + if cells % 7 != 0 { 1 } else { 0 }
    }

    /// Day in cell (`row`, `col`) of the shown month's grid, if any.
    pub fn day_at_cell(&self, row: u32, col: u32) -> (day: Option<u32>)
        requires
            row * 7 + col <= u32::MAX,
            row * 7 + col >= self.computed_first_weekday ==> row * 7 + col - self.computed_first_weekday < u32::MAX,
        ensures
            col >= 7 ==> day is None,
            col < 7 ==> match day_in_cell(
                row * 7 + col,
                self.computed_first_weekday as int,
                self.computed_days_in_month as int,
            ) {
                Some(d) => day == Some(d as u32),
                None => day is None,
            },
    {
        if col >= 7 {
            return None;
        }
        let cell_idx = row * 7 + col;
        if cell_idx < self.computed_first_weekday {
            return None;
        }
        let day = cell_idx - self.computed_first_weekday + 1;
        if day >= 1 && day <= self.computed_days_in_month {
            Some(day)
        } else {
            None
        }
    }

    /// A click on `day` of the shown month selects that date (the day
    /// capped at the month's length); returns the moment for the change callback.
    pub fn select_day(&mut self, day: u32) -> (m: Moment)
        ensures
            ({
                let max_day = month_length(is_leap(old(self).view_year as int), old(self).view_month as int);
                *final(self) == (DateTimePicker {
                    year: old(self).view_year,
                    month: old(self).view_month,
                    day: if day > max_day { max_day as u32 } else { day },
                    ..*old(self)
                })
            }),
            m == final(self).moment(),
    {
        self.day = day;
        self.year = self.view_year;
        self.month = self.view_month;
        self.clamp_day();
        (self.year, self.month, self.day, self.hour, self.minute, self.second)
    }

    /// Shows the previous month.
    pub fn prev_view_month(&mut self)
        requires
            old(self).wf(),
            old(self).view_month == 1 ==> old(self).view_year > i32::MIN,
        ensures
            (final(self).view_year as int, final(self).view_month as int) == prev_month_of(
                old(self).view_year as int,
                old(self).view_month as int,
            ),
            *final(self) == (DateTimePicker {
                view_year: final(self).view_year,
                view_month: final(self).view_month,
                ..*old(self)
            }),
            final(self).wf(),
            final(self).moment() == old(self).moment(),
    {
        if self.view_month == 1 {
            self.view_month = 12;
            self.view_year = self.view_year - 1;
        } else {
            self.view_month = self.view_month - 1;
        }
    }

    /// Shows the next month.
    pub fn next_view_month(&mut self)
        requires
            old(self).wf(),
            old(self).view_month == 12 ==> old(self).view_year < i32::MAX,
        ensures
            (final(self).view_year as int, final(self).view_month as int) == next_month_of(
                old(self).view_year as int,
                old(self).view_month as int,
            ),
            *final(self) == (DateTimePicker {
                view_year: final(self).view_year,
                view_month: final(self).view_month,
                ..*old(self)
            }),
            final(self).wf(),
            final(self).moment() == old(self).moment(),
    {
        if self.view_month == 12 {
            self.view_month = 1;
            self.view_year = self.view_year + 1;
        } else {
            self.view_month = self.view_month + 1;
        }
    }

    /// Hour spinner up, wrapping 23 to 0.
    pub fn hour_up(&mut self) -> (m: Moment)
        requires
            old(self).wf(),
        ensures
            *final(self) == (DateTimePicker { hour: ((old(self).hour + 1) % 24) as u8, ..*old(self) }),
            final(self).wf(),
            m == final(self).moment(),
    {
        self.hour = if self.hour == 23 { 0 } else { self.hour + 1 };
        (self.year, self.month, self.day, self.hour, self.minute, self.second)
    }

    /// Hour spinner down, wrapping 0 to 23.
    pub fn hour_down(&mut self) -> (m: Moment)
        requires
            old(self).wf(),
        ensures
            *final(self) == (DateTimePicker { hour: ((old(self).hour + 23) % 24) as u8, ..*old(self) }),
            final(self).wf(),
            m == final(self).moment(),
    {
        self.hour = if self.hour == 0 { 23 } else { self.hour - 1 };
        (self.year, self.month, self.day, self.hour, self.minute, self.second)
    }

    /// Minute spinner up, wrapping 59 to 0.
    pub fn minute_up(&mut self) -> (m: Moment)
        requires
            old(self).wf(),
        ensures
            *final(self) == (DateTimePicker { minute: ((old(self).minute + 1) % 60) as u8, ..*old(self) }),
            final(self).wf(),
            m == final(self).moment(),
    {
        self.minute = if self.minute == 59 { 0 } else { self.minute + 1 };
        (self.year, self.month, self.day, self.hour, self.minute, self.second)
    }

    /// Minute spinner down, wrapping 0 to 59.
    pub fn minute_down(&mut self) -> (m: Moment)
        requires
            old(self).wf(),
        ensures
            *final(self) == (DateTimePicker { minute: ((old(self).minute + 59) % 60) as u8, ..*old(self) }),
            final(self).wf(),
            m == final(self).moment(),
    {
        self.minute = if self.minute == 0 { 59 } else { self.minute - 1 };
        (self.year, self.month, self.day, self.hour, self.minute, self.second)
    }

    /// Second spinner up, wrapping 59 to 0.
    pub fn second_up(&mut self) -> (m: Moment)
        requires
            old(self).wf(),
        ensures
            *final(self) == (DateTimePicker { second: ((old(self).second + 1) % 60) as u8, ..*old(self) }),
            final(self).wf(),
            m == final(self).moment(),
    {
        self.second = if self.second == 59 { 0 } else { self.second + 1 };
        (self.year, self.month, self.day, self.hour, self.minute, self.second)
    }

    /// Second spinner down, wrapping 0 to 59.
    pub fn second_down(&mut self) -> (m: Moment)
        requires
            old(self).wf(),
        ensures
            *final(self) == (DateTimePicker { second: ((old(self).second + 59) % 60) as u8, ..*old(self) }),
            final(self).wf(),
            m == final(self).moment(),
    {
        self.second = if self.second == 0 { 59 } else { self.second - 1 };
        (self.year, self.month, self.day, self.hour, self.minute, self.second)
    }

    /// A release on the trigger: closes an open dropdown, or opens it on
    /// the month of the selected date.
    pub fn toggle_open(&mut self)
        ensures
            old(self).open ==> *final(self) == (DateTimePicker { open: false, ..*old(self) }),
            !old(self).open ==> *final(self) == (DateTimePicker {
                open: true,
                view_year: old(self).year,
                view_month: old(self).month,
                ..*old(self)
            }),
    {
        if self.open {
            self.open = false;
        } else {
            self.open = true;
            self.view_year = self.year;
            self.view_month = self.month;
        }
    }

    /// A release outside the open dropdown closes it.
    pub fn close(&mut self)
        ensures
            *final(self) == (DateTimePicker { open: false, ..*old(self) }),
    {
        self.open = false;
    }
}

} // verus!
