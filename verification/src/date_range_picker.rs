//! State and rules of the two-month date range picker.
use vstd::prelude::*;
use crate::dates::{
    is_leap, month_length, month_name_of, month_offset_value, next_month_of, prev_month_of,
    tdiv, trem,
};
use crate::date_time_picker::{date_text, push_date};
use crate::text::push_char;

verus! {

/// Days in `month` of `year`, the year's leap status taken from its bits
/// read as an unsigned number; out-of-range months count 30 days.
pub fn days_in_month(year: i32, month: u32) -> (days: u32)
    ensures
        days == month_length(is_leap((year as u32) as int), month as int),
{
    if month == 1 || month == 3 || month == 5 || month == 7 || month == 8 || month == 10
        || month == 12 {
        31
    } else if month == 4 || month == 6 || month == 9 || month == 11 {
        30
    } else if month == 2 {
        let y = year as u32;
        if (y % 4 == 0 && y % 100 != 0) || y % 400 == 0 {
            29
        } else {
            28
        }
    } else {
        30
    }
}

/// The partial sums of Sakamoto's formula in the order `day_of_week`
/// adds them, each of which must be an `i32`.
pub open spec fn weekday_terms(year: int, month: int, day: int) -> Seq<int> {
    let y = if month < 3 { year - 1 } else { year };
    let p1 = y + tdiv(y, 4);
    let p2 = p1 - tdiv(y, 100);
    let p3 = p2 + tdiv(y, 400);
    let p4 = p3 + crate::dates::month_offset(month);
    let p5 = p4 + day;
    seq![y, p1, p2, p3, p4, p5]
}

pub open spec fn fits_i32(x: int) -> bool {
    i32::MIN <= x <= i32::MAX
}

/// Whether every step of `day_of_week` stays within `i32`.
pub open spec fn weekday_fits(year: int, month: int, day: int) -> bool {
    forall|i: int| 0 <= i < 6 ==> #[trigger] fits_i32(weekday_terms(year, month, day)[i])
}

pub open spec fn abs(x: int) -> int {
    if x < 0 { -x } else { x }
}

/// Day of the week (0 = Sunday ... 6 = Saturday) by Sakamoto's method in
/// 32-bit arithmetic; before the year 1 the magnitude of the (negative)
/// remainder is returned.
pub fn day_of_week(year: i32, month: u32, day: u32) -> (dow: u32)
    requires
        1 <= month <= 12,
        weekday_fits(year as int, month as int, (day as i32) as int),
    ensures
        dow == abs(trem(weekday_terms(year as int, month as int, (day as i32) as int)[5], 7)),
        dow < 7,
        crate::dates::weekday_sum(year as int, month as int, (day as i32) as int) >= 0
            ==> dow == crate::dates::weekday(year as int, month as int, (day as i32) as int),
{
    proof {
        lemma_range_weekday_is_gregorian(year as int, month as int, (day as i32) as int);
    }
    let t = month_offset_value(month) as i32;
    assert(fits_i32(weekday_terms(year as int, month as int, (day as i32) as int)[0]));
    let y = if month < 3 { year - 1 } else { year };
    assert(fits_i32(weekday_terms(year as int, month as int, (day as i32) as int)[1]));
    assert(fits_i32(weekday_terms(year as int, month as int, (day as i32) as int)[2]));
    assert(fits_i32(weekday_terms(year as int, month as int, (day as i32) as int)[3]));
    assert(fits_i32(weekday_terms(year as int, month as int, (day as i32) as int)[4]));
    assert(fits_i32(weekday_terms(year as int, month as int, (day as i32) as int)[5]));
    let r = (y + y / 4 - y / 100 + y / 400 + t + day as i32) % 7;
    if r < 0 {
        (-r) as u32
    } else {
        r as u32
    }
}

/// Law: the weekday sum computed here is the calendar's (`dates::weekday_sum`),
/// so for every date of year 1 or later the weekday agrees with
/// `dates::weekday`: it advances by one each day, and the first of the next
/// month falls `days_in_month` days after the first of this one.
pub proof fn lemma_range_weekday_is_gregorian(year: int, month: int, day: int)
    requires
        1 <= month <= 12,
    ensures
        weekday_terms(year, month, day)[5] == crate::dates::weekday_sum(year, month, day),
        crate::dates::weekday_sum(year, month, day) >= 0 ==>
            abs(trem(weekday_terms(year, month, day)[5], 7)) == crate::dates::weekday(year, month, day),
        year >= 1 && day >= 1 ==> abs(trem(weekday_terms(year, month, day + 1)[5], 7))
            == (abs(trem(weekday_terms(year, month, day)[5], 7)) + 1) % 7,
        year >= 1 ==> ({
            let (ny, nm) = next_month_of(year, month);
            abs(trem(weekday_terms(ny, nm, 1)[5], 7))
                == (abs(trem(weekday_terms(year, month, 1)[5], 7)) + month_length(is_leap(year), month)) % 7
        }),
{
    assert(weekday_terms(year, month, day)[5] == crate::dates::weekday_sum(year, month, day));
    if crate::dates::weekday_sum(year, month, day) >= 0 {
        assert(trem(crate::dates::weekday_sum(year, month, day), 7) >= 0);
    }
    if year >= 1 && day >= 1 {
        assert(crate::dates::weekday_sum(year, month, day) >= 0);
        crate::dates::lemma_weekday_day_step(year, month, day);
        assert(weekday_terms(year, month, day + 1)[5] == crate::dates::weekday_sum(year, month, day + 1));
        assert(trem(crate::dates::weekday_sum(year, month, day + 1), 7) >= 0);
    }
    if year >= 1 {
        let (ny, nm) = next_month_of(year, month);
        crate::dates::lemma_weekday_month_step(year, month);
        assert(weekday_terms(ny, nm, 1)[5] == crate::dates::weekday_sum(ny, nm, 1));
        assert(weekday_terms(year, month, 1)[5] == crate::dates::weekday_sum(year, month, 1));
        assert(crate::dates::weekday_sum(ny, nm, 1) >= 0);
        assert(crate::dates::weekday_sum(year, month, 1) >= 0);
        assert(trem(crate::dates::weekday_sum(ny, nm, 1), 7) >= 0);
        assert(trem(crate::dates::weekday_sum(year, month, 1), 7) >= 0);
    }
}

/// Weekday of the first day of the month (0 = Sunday).
pub fn first_weekday(year: i32, month: u32) -> (dow: u32)
    requires
        1 <= month <= 12,
        weekday_fits(year as int, month as int, 1),
    ensures
        dow == abs(trem(weekday_terms(year as int, month as int, 1)[5], 7)),
        dow < 7,
        crate::dates::weekday_sum(year as int, month as int, 1) >= 0 ==> dow == crate::dates::weekday(year as int, month as int, 1),
{
    day_of_week(year, month, 1)
}

/// English name of the month; `"???"` outside `1..=12`.
pub fn month_name(month: u32) -> (name: &'static str)
    ensures
        name@ == (match month_name_of(month as int) { Some(n) => n, None => "???"@ }),
{
    if month == 1 { "January" }
    else if month == 2 { "February" }
    else if month == 3 { "March" }
    else if month == 4 { "April" }
    else if month == 5 { "May" }
    else if month == 6 { "June" }
    else if month == 7 { "July" }
    else if month == 8 { "August" }
    else if month == 9 { "September" }
    else if month == 10 { "October" }
    else if month == 11 { "November" }
    else if month == 12 { "December" }
    else { "???" }
}

/// The month after (`year`, `month`).
pub fn advance_month(year: i32, month: u32) -> (next: (i32, u32))
    requires
        month == 12 ==> year < i32::MAX,
        month != 12 ==> month < u32::MAX,
    ensures
        (next.0 as int, next.1 as int) == next_month_of(year as int, month as int),
{
    if month == 12 {
        (year + 1, 1)
    } else {
        (year, month + 1)
    }
}

/// Lexicographic `<` on (year, month, day).
pub open spec fn ymd_lt(a: (i32, u32, u32), b: (i32, u32, u32)) -> bool {
    a.0 < b.0 || (a.0 == b.0 && (a.1 < b.1 || (a.1 == b.1 && a.2 < b.2)))
}

/// A completed range never ends before it starts, whichever of its two
/// days was picked first.
pub proof fn lemma_completed_range_ordered(first: (i32, u32, u32), second: (i32, u32, u32))
    ensures
        ({
            let (s, e) = if ymd_lt(second, first) { (second, first) } else { (first, second) };
            !ymd_lt(e, s)
        }),
{
}

fn ymd_before(a: (i32, u32, u32), b: (i32, u32, u32)) -> (r: bool)
    ensures
        r == ymd_lt(a, b),
{
    a.0 < b.0 || (a.0 == b.0 && (a.1 < b.1 || (a.1 == b.1 && a.2 < b.2)))
}

/// A date range picker: the first click sets the start of the range, the
/// second its end; two consecutive months are shown side by side.
/// A year of 0 marks an unset endpoint.
pub struct DateRangePicker {
    pub start_year: i32,
    pub start_month: u32,
    pub start_day: u32,
    pub end_year: i32,
    pub end_month: u32,
    pub end_day: u32,
    pub selecting_end: bool,
    pub open: bool,
    pub left_year: i32,
    pub left_month: u32,
    pub hover_day_left: Option<u32>,
    pub hover_day_right: Option<u32>,
    pub error: bool,
}

/// Separator between the two endpoints in the trigger text.
pub open spec fn range_separator() -> Seq<char> {
    seq![' ', ' ', '\u{2014}', ' ', ' ']
}

impl DateRangePicker {
    pub open spec fn start(&self) -> (i32, u32, u32) {
        (self.start_year, self.start_month, self.start_day)
    }

    pub open spec fn end(&self) -> (i32, u32, u32) {
        (self.end_year, self.end_month, self.end_day)
    }

    /// The left calendar shows a month in `1..=12`.
    pub open spec fn wf(&self) -> bool {
        1 <= self.left_month <= 12
    }

    /// Text shown in the trigger.
    pub open spec fn display_text_spec(&self) -> Seq<char> {
        if self.start_year != 0 && self.end_year != 0 {
            date_text(self.start_year as int, self.start_month as nat, self.start_day as nat)
                + range_separator() + date_text(
                self.end_year as int,
                self.end_month as nat,
                self.end_day as nat,
            )
        } else if self.start_year != 0 {
            date_text(self.start_year as int, self.start_month as nat, self.start_day as nat)
                + range_separator() + seq!['.', '.', '.']
        } else {
            "Pick a date range"@
        }
    }

    /// No range, closed, showing April 2026 on the left.
    pub fn new() -> (p: DateRangePicker)
        ensures
            p == (DateRangePicker {
                start_year: 0,
                start_month: 0,
                start_day: 0,
                end_year: 0,
                end_month: 0,
                end_day: 0,
                selecting_end: false,
                open: false,
                left_year: 2026,
                left_month: 4,
                hover_day_left: None,
                hover_day_right: None,
                error: false,
            }),
            p.wf(),
    {
        DateRangePicker {
            start_year: 0,
            start_month: 0,
            start_day: 0,
            end_year: 0,
            end_month: 0,
            end_day: 0,
            selecting_end: false,
            open: false,
            left_year: 2026,
            left_month: 4,
            hover_day_left: None,
            hover_day_right: None,
            error: false,
        }
    }

    pub fn start_date(self, year: i32, month: u32, day: u32) -> (p: DateRangePicker)
        ensures
            p == (DateRangePicker { start_year: year, start_month: month, start_day: day, ..self }),
    {
        DateRangePicker { start_year: year, start_month: month, start_day: day, ..self }
    }

    pub fn end_date(self, year: i32, month: u32, day: u32) -> (p: DateRangePicker)
        ensures
            p == (DateRangePicker { end_year: year, end_month: month, end_day: day, ..self }),
    {
        DateRangePicker { end_year: year, end_month: month, end_day: day, ..self }
    }

    /// Shows (`year`, `month`) on the left, the month clamped into `1..=12`.
    pub fn left_month(self, year: i32, month: u32) -> (p: DateRangePicker)
        ensures
            p == (DateRangePicker {
                left_year: year,
                left_month: if month < 1 { 1 } else if month > 12 { 12 } else { month },
                ..self
            }),
            p.wf(),
    {
        let m = if month < 1 { 1 } else if month > 12 { 12 } else { month };
        DateRangePicker { left_year: year, left_month: m, ..self }
    }

    pub fn error(self, error: bool) -> (p: DateRangePicker)
        ensures
            p == (DateRangePicker { error, ..self }),
    {
        DateRangePicker { error, ..self }
    }

    pub fn has_start(&self) -> (r: bool)
        ensures
            r == (self.start_year != 0),
    {
        self.start_year != 0
    }

    pub fn has_end(&self) -> (r: bool)
        ensures
            r == (self.end_year != 0),
    {
        self.end_year != 0
    }

    pub fn has_range(&self) -> (r: bool)
        ensures
            r == (self.start_year != 0 && self.end_year != 0),
    {
        self.has_start() && self.has_end()
    }

    /// Text of the trigger: both endpoints, the start and an ellipsis, or a prompt.
    pub fn display_text(&self) -> (text: String)
        ensures
            text@ == self.display_text_spec(),
    {
        if self.has_start() {
            let mut s = String::new();
            push_date(&mut s, self.start_year, self.start_month, self.start_day);
            push_char(&mut s, ' ');
            push_char(&mut s, ' ');
            push_char(&mut s, '\u{2014}');
            push_char(&mut s, ' ');
            push_char(&mut s, ' ');
            if self.has_end() {
                push_date(&mut s, self.end_year, self.end_month, self.end_day);
            } else {
                push_char(&mut s, '.');
                push_char(&mut s, '.');
                push_char(&mut s, '.');
            }
            assert(s@ =~= self.display_text_spec());
            s
        } else {
            String::from_str("Pick a date range")
        }
    }

    /// Month shown by the right calendar: the one after the left month.
    pub fn right_year_month(&self) -> (ym: (i32, u32))
        requires
            self.left_month == 12 ==> self.left_year < i32::MAX,
            self.left_month != 12 ==> self.left_month < u32::MAX,
        ensures
            (ym.0 as int, ym.1 as int) == next_month_of(self.left_year as int, self.left_month as int),
    {
        advance_month(self.left_year, self.left_month)
    }

    /// Shows the previous month on the left.
    pub fn prev_month(&mut self)
        requires
            old(self).wf(),
            old(self).left_month == 1 ==> old(self).left_year > i32::MIN,
        ensures
            (final(self).left_year as int, final(self).left_month as int) == prev_month_of(
                old(self).left_year as int,
                old(self).left_month as int,
            ),
            *final(self) == (DateRangePicker {
                left_year: final(self).left_year,
                left_month: final(self).left_month,
                ..*old(self)
            }),
            final(self).wf(),
            final(self).start() == old(self).start(),
            final(self).end() == old(self).end(),
            final(self).selecting_end == old(self).selecting_end,
            final(self).open == old(self).open,
    {
        if self.left_month == 1 {
            self.left_month = 12;
            self.left_year = self.left_year - 1;
        } else {
            self.left_month = self.left_month - 1;
        }
    }

    /// Shows the next month on the left.
    pub fn next_month(&mut self)
        requires
            old(self).wf(),
            old(self).left_month == 12 ==> old(self).left_year < i32::MAX,
        ensures
            (final(self).left_year as int, final(self).left_month as int) == next_month_of(
                old(self).left_year as int,
                old(self).left_month as int,
            ),
            *final(self) == (DateRangePicker {
                left_year: final(self).left_year,
                left_month: final(self).left_month,
                ..*old(self)
            }),
            final(self).wf(),
            final(self).start() == old(self).start(),
            final(self).end() == old(self).end(),
            final(self).selecting_end == old(self).selecting_end,
            final(self).open == old(self).open,
    {
        if self.left_month == 12 {
            self.left_month = 1;
            self.left_year = self.left_year + 1;
        } else {
            self.left_month = self.left_month + 1;
        }
    }

    /// Whether the date lies in the selected range (inclusive); with only a
    /// start set, whether it is the start.
    pub fn is_in_range(&self, year: i32, month: u32, day: u32) -> (r: bool)
        ensures
            r == (self.start_year != 0 && (if self.end_year != 0 {
                !ymd_lt((year, month, day), self.start()) && !ymd_lt(self.end(), (year, month, day))
            } else {
                (year, month, day) == self.start()
            })),
    {
        if !self.has_start() {
            return false;
        }
        let date = (year, month, day);
        let start = (self.start_year, self.start_month, self.start_day);
        if self.has_end() {
            let end = (self.end_year, self.end_month, self.end_day);
            !ymd_before(date, start) && !ymd_before(end, date)
        } else {
            date.0 == start.0 && date.1 == start.1 && date.2 == start.2
        }
    }

    /// Whether the date is a set endpoint of the range.
    pub fn is_range_endpoint(&self, year: i32, month: u32, day: u32) -> (r: bool)
        ensures
            r == ((self.start_year != 0 && (year, month, day) == self.start()) || (self.end_year
                != 0 && (year, month, day) == self.end())),
    {
        if self.has_start() && year == self.start_year && month == self.start_month && day
            == self.start_day {
            return true;
        }
        if self.has_end() && year == self.end_year && month == self.end_month && day
            == self.end_day {
            return true;
        }
        false
    }

    /// A click on a day. The first click sets the start and clears the end;
    /// the second sets the end, swapping the two when the end is earlier,
    /// and returns the completed range for the change callback.
    pub fn select_day(&mut self, year: i32, month: u32, day: u32) -> (range: Option<((i32, u32, u32), (i32, u32, u32))>)
        ensures
            !old(self).selecting_end ==> {
                &&& final(self).start() == (year, month, day)
                &&& final(self).end() == (0i32, 0u32, 0u32)
                &&& final(self).selecting_end
                &&& range is None
            },
            old(self).selecting_end ==> {
                &&& !final(self).selecting_end
                &&& (if ymd_lt((year, month, day), old(self).start()) {
                    final(self).start() == (year, month, day) && final(self).end() == old(self).start()
                } else {
                    final(self).start() == old(self).start() && final(self).end() == (year, month, day)
                })
                &&& range == Some((final(self).start(), final(self).end()))
            },
            final(self).left_year == old(self).left_year,
            final(self).left_month == old(self).left_month,
            final(self).open == old(self).open,
            final(self).error == old(self).error,
    {
        if !self.selecting_end {
            self.start_year = year;
            self.start_month = month;
            self.start_day = day;
            self.end_year = 0;
            self.end_month = 0;
            self.end_day = 0;
            self.selecting_end = true;
            None
        } else {
            let start = (self.start_year, self.start_month, self.start_day);
            let end = (year, month, day);
            if ymd_before(end, start) {
                self.start_year = end.0;
                self.start_month = end.1;
                self.start_day = end.2;
                self.end_year = start.0;
                self.end_month = start.1;
                self.end_day = start.2;
            } else {
                self.end_year = year;
                self.end_month = month;
                self.end_day = day;
            }
            self.selecting_end = false;
            Some(((self.start_year, self.start_month, self.start_day), (self.end_year, self.end_month, self.end_day)))
        }
    }

    /// Day in cell (`row`, `col`) of the grid of (`year`, `month`), which
    /// has six rows of seven days.
    pub fn day_at_cell(&self, row: u32, col: u32, year: i32, month: u32) -> (day: Option<u32>)
        requires
            1 <= month <= 12,
            weekday_fits(year as int, month as int, 1),
        ensures
            ({
                let fw = abs(trem(weekday_terms(year as int, month as int, 1)[5], 7));
                let cell = row * 7 + col;
                let dim = month_length(is_leap((year as u32) as int), month as int);
                if col >= 7 || row >= 6 || cell < fw || cell - fw + 1 > dim {
                    day is None
                } else {
                    day == Some((cell - fw + 1) as u32)
                }
            }),
    {
        if col >= 7 || row >= 6 {
            return None;
        }
        let fw = first_weekday(year, month);
        let cell_idx = row * 7 + col;
        if cell_idx < fw {
            return None;
        }
        let day = cell_idx - fw + 1;
        let dim = days_in_month(year, month);
        if day >= 1 && day <= dim {
            Some(day)
        } else {
            None
        }
    }

    /// A release on the trigger opens or closes the dropdown.
    pub fn toggle_open(&mut self)
        ensures
            *final(self) == (DateRangePicker { open: !old(self).open, ..*old(self) }),
    {
        self.open = !self.open;
    }

    /// A release outside the open dropdown closes it and clears the hover.
    pub fn close(&mut self)
        ensures
            *final(self) == (DateRangePicker {
                open: false,
                hover_day_left: None,
                hover_day_right: None,
                ..*old(self)
            }),
    {
        self.open = false;
        self.hover_day_left = None;
        self.hover_day_right = None;
    }
}

} // verus!
