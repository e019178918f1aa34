//! State and rules of the month-view calendar.
use vstd::prelude::*;
use crate::dates::{
    day_in_cell, grid_rows, is_leap, month_abbrev_of, month_length, month_name_of,
    month_offset_value, next_month_of, prev_month_of, weekday, weekday_sum,
};
use crate::text::{padded, push_char, push_padded};
use crate::theme::Color;

verus! {

/// Controls how the month/year selector behaves when clicking the header.
#[derive(Clone, Copy, Debug, PartialEq, Eq, Structural)]
pub enum MonthYearSelector {
    /// Clicking the month name opens the month column; clicking the year
    /// opens the year column.
    Separate,
    /// Clicking anywhere on "Month Year" opens both columns side by side.
    Combined,
}

/// Visual style for a cell indicator on a calendar day.
#[derive(Clone, Copy, Debug, PartialEq, Eq, Structural)]
pub enum IndicatorStyle {
    /// A small coloured dot below the day number.
    Dot,
    /// A coloured ring around the day cell.
    Ring,
}

/// A visual marker on a specific day cell with an optional tooltip.
pub struct CellIndicator {
    pub day: u32,
    pub color: Color,
    pub style: IndicatorStyle,
    pub tooltip: Option<String>,
}

/// Which selector columns replace the day grid.
#[derive(Clone, Copy, Debug, PartialEq, Eq, Structural)]
pub enum SelectorView {
    Hidden,
    MonthColumn,
    YearColumn,
    Combined,
}

/// Number of years listed in the year column, centred on the shown year.
pub const SELECTOR_YEAR_COUNT: i32 = 21;

/// Lexicographic `<` on (year, month, day).
pub open spec fn date_lt(a: (u32, u32, u32), b: (u32, u32, u32)) -> bool {
    a.0 < b.0 || (a.0 == b.0 && (a.1 < b.1 || (a.1 == b.1 && a.2 < b.2)))
}

/// Lexicographic `<=` on (year, month).
pub open spec fn month_le(a: (int, int), b: (int, int)) -> bool {
    a.0 < b.0 || (a.0 == b.0 && a.1 <= b.1)
}

fn date_before(a: (u32, u32, u32), b: (u32, u32, u32)) -> (r: bool)
    ensures
        r == date_lt(a, b),
{
    a.0 < b.0 || (a.0 == b.0 && (a.1 < b.1 || (a.1 == b.1 && a.2 < b.2)))
}

fn vec_contains(v: &Vec<u32>, x: u32) -> (r: bool)
    ensures
        r == v@.contains(x),
{
    let mut i: usize = 0;
    while i < v.len()
        invariant
            i <= v.len(),
            forall|j: int| 0 <= j < i ==> v@[j] != x,
        decreases v.len() - i,
    {
        if v[i] == x {
            return true;
        }
        i = i + 1;
    }
    false
}

/// Whether the Sakamoto sum for the first of `month` fits the `u32`
/// arithmetic of [`Calendar::first_day_of_week`], step by step.
pub open spec fn first_weekday_fits(year: int, month: int) -> bool {
    let y = if month < 3 { year - 1 } else { year };
    &&& y >= 0
    &&& y + y / 4 <= u32::MAX
    &&& weekday_sum(year, month, 1) <= u32::MAX
}

/// A calendar date grid displaying a month view.
pub struct Calendar {
    pub year: u32,
    pub month: u32,
    pub selected_day: Option<u32>,
    pub today_day: Option<u32>,
    pub disabled_days: Vec<u32>,
    pub min_date: Option<(u32, u32, u32)>,
    pub max_date: Option<(u32, u32, u32)>,
    pub month_year_selector: Option<MonthYearSelector>,
    pub selector_view: SelectorView,
    pub indicators: Vec<CellIndicator>,
    pub hovered_day: Option<u32>,
    pub hovered_selector_month: Option<u32>,
    pub hovered_selector_year: Option<u32>,
    pub days_in_month: u32,
    pub first_weekday: u32,
    pub prev_month_days: u32,
}

impl Calendar {
    /// The months shown are `1..=12`.
    pub open spec fn wf(&self) -> bool {
        1 <= self.month <= 12
    }

    /// Whether `day` of the shown month cannot be selected.
    pub open spec fn day_disabled(&self, day: u32) -> bool {
        ||| self.disabled_days@.contains(day)
        ||| (self.min_date matches Some(m) && date_lt((self.year, self.month, day), m))
        ||| (self.max_date matches Some(m) && date_lt(m, (self.year, self.month, day)))
    }

    /// Whether the month before the shown one is not before the minimum date's month.
    pub open spec fn may_go_prev(&self) -> bool {
        match self.min_date {
            Some(m) => month_le((m.0 as int, m.1 as int), prev_month_of(self.year as int, self.month as int)),
            None => true,
        }
    }

    /// Whether the month after the shown one is not after the maximum date's month.
    pub open spec fn may_go_next(&self) -> bool {
        match self.max_date {
            Some(m) => month_le(next_month_of(self.year as int, self.month as int), (m.0 as int, m.1 as int)),
            None => true,
        }
    }

    /// January 2026, nothing selected, no limits, grid of a 31-day month.
    pub fn new() -> (c: Calendar)
        ensures
            c.wf(),
            c.year == 2026,
            c.month == 1,
            c.selected_day is None,
            c.today_day is None,
            c.disabled_days@.len() == 0,
            c.min_date is None,
            c.max_date is None,
            c.month_year_selector is None,
            c.selector_view == SelectorView::Hidden,
            c.indicators@.len() == 0,
            c.hovered_day is None,
            c.hovered_selector_month is None,
            c.hovered_selector_year is None,
            c.days_in_month == 31,
            c.first_weekday == 0,
            c.prev_month_days == 31,
    {
        Calendar {
            year: 2026,
            month: 1,
            selected_day: None,
            today_day: None,
            disabled_days: Vec::new(),
            min_date: None,
            max_date: None,
            month_year_selector: None,
            selector_view: SelectorView::Hidden,
            indicators: Vec::new(),
            hovered_day: None,
            hovered_selector_month: None,
            hovered_selector_year: None,
            days_in_month: 31,
            first_weekday: 0,
            prev_month_days: 31,
        }
    }

    pub fn year(self, year: u32) -> (c: Calendar)
        ensures
            c == (Calendar { year, ..self }),
    {
        Calendar { year, ..self }
    }

    /// Sets the month, clamped into `1..=12`.
    pub fn month(self, month: u32) -> (c: Calendar)
        ensures
            c == (Calendar { month: if month < 1 { 1 } else if month > 12 { 12 } else { month }, ..self }),
            c.wf(),
    {
        let m = if month < 1 { 1 } else if month > 12 { 12 } else { month };
        Calendar { month: m, ..self }
    }

    pub fn selected_day(self, day: u32) -> (c: Calendar)
        ensures
            c == (Calendar { selected_day: Some(day), ..self }),
    {
        Calendar { selected_day: Some(day), ..self }
    }

    pub fn today(self, day: u32) -> (c: Calendar)
        ensures
            c == (Calendar { today_day: Some(day), ..self }),
    {
        Calendar { today_day: Some(day), ..self }
    }

    /// Adds one disabled day.
    pub fn disabled_day(self, day: u32) -> (c: Calendar)
        ensures
            c.disabled_days@ == self.disabled_days@.push(day),
            c.year == self.year && c.month == self.month && c.min_date == self.min_date
                && c.max_date == self.max_date && c.selected_day == self.selected_day,
    {
        let mut c = self;
        c.disabled_days.push(day);
        c
    }

    /// Replaces the disabled days.
    pub fn disabled_days(self, days: Vec<u32>) -> (c: Calendar)
        ensures
            c.disabled_days@ == days@,
            c.year == self.year && c.month == self.month && c.min_date == self.min_date
                && c.max_date == self.max_date && c.selected_day == self.selected_day,
    {
        let mut c = self;
        c.disabled_days = days;
        c
    }

    pub fn min_date(self, year: u32, month: u32, day: u32) -> (c: Calendar)
        ensures
            c.min_date == Some((year, month, day)),
            c.year == self.year && c.month == self.month && c.max_date == self.max_date
                && c.disabled_days@ == self.disabled_days@,
    {
        let mut c = self;
        c.min_date = Some((year, month, day));
        c
    }

    pub fn max_date(self, year: u32, month: u32, day: u32) -> (c: Calendar)
        ensures
            c.max_date == Some((year, month, day)),
            c.year == self.year && c.month == self.month && c.min_date == self.min_date
                && c.disabled_days@ == self.disabled_days@,
    {
        let mut c = self;
        c.max_date = Some((year, month, day));
        c
    }

    pub fn month_year_selector(self, selector: MonthYearSelector) -> (c: Calendar)
        ensures
            c.month_year_selector == Some(selector),
            c.year == self.year && c.month == self.month,
    {
        let mut c = self;
        c.month_year_selector = Some(selector);
        c
    }

    /// Adds one indicator.
    pub fn indicator(self, indicator: CellIndicator) -> (c: Calendar)
        ensures
            c.indicators@ == self.indicators@.push(indicator),
            c.year == self.year && c.month == self.month,
    {
        let mut c = self;
        c.indicators.push(indicator);
        c
    }

    /// Replaces the indicators.
    pub fn indicators(self, indicators: Vec<CellIndicator>) -> (c: Calendar)
        ensures
            c.indicators@ == indicators@,
            c.year == self.year && c.month == self.month,
    {
        let mut c = self;
        c.indicators = indicators;
        c
    }

    /// Whether `day` of the shown month is disabled: listed as disabled,
    /// before the minimum date or after the maximum date.
    pub fn is_day_disabled(&self, day: u32) -> (r: bool)
        ensures
            r == self.day_disabled(day),
    {
        if vec_contains(&self.disabled_days, day) {
            return true;
        }
        let date = (self.year, self.month, day);
        if let Some(min) = self.min_date {
            if date_before(date, min) {
                return true;
            }
        }
        if let Some(max) = self.max_date {
            if date_before(max, date) {
                return true;
            }
        }
        false
    }

    /// Whether the previous month may be shown.
    pub fn can_go_prev(&self) -> (r: bool)
        requires
            self.min_date is Some && self.month == 1 ==> self.year >= 1,
            self.min_date is Some && self.month != 1 ==> self.month >= 1,
        ensures
            r == self.may_go_prev(),
    {
        if let Some((min_y, min_m, _)) = self.min_date {
            let (py, pm) = if self.month == 1 { (self.year - 1, 12) } else { (self.year, self.month - 1) };
            min_y < py || (min_y == py && min_m <= pm)
        } else {
            true
        }
    }

    /// Whether the next month may be shown.
    pub fn can_go_next(&self) -> (r: bool)
        requires
            self.max_date is Some && self.month == 12 ==> self.year < u32::MAX,
            self.max_date is Some && self.month != 12 ==> self.month < u32::MAX,
        ensures
            r == self.may_go_next(),
    {
        if let Some((max_y, max_m, _)) = self.max_date {
            let (ny, nm) = if self.month == 12 { (self.year + 1, 1) } else { (self.year, self.month + 1) };
            ny < max_y || (ny == max_y && nm <= max_m)
        } else {
            true
        }
    }

    /// Days in `month` of `year`; out-of-range months count 30 days.
    pub fn compute_days_in_month(year: u32, month: u32) -> (days: u32)
        ensures
            days == month_length(is_leap(year as int), month as int),
    {
        if month == 1 || month == 3 || month == 5 || month == 7 || month == 8 || month == 10
            || month == 12 {
            31
        } else if month == 4 || month == 6 || month == 9 || month == 11 {
            30
        } else if month == 2 {
            if (year % 4 == 0 && year % 100 != 0) || year % 400 == 0 {
                29
            } else {
                28
            }
        } else {
            30
        }
    }

    /// Weekday (0 = Sunday) of the first day of `month` in `year`.
    pub fn first_day_of_week(year: u32, month: u32) -> (dow: u32)
        requires
            1 <= month <= 12,
            first_weekday_fits(year as int, month as int),
        ensures
            dow == weekday(year as int, month as int, 1),
            dow < 7,
    {
        let t = month_offset_value(month);
        let y = if month < 3 { year - 1 } else { year };
        (y + y / 4 - y / 100 + y / 400 + t + 1) % 7
    }

    /// English name of the month; empty outside `1..=12`.
    pub fn month_name(month: u32) -> (name: &'static str)
        ensures
            name@ == (match month_name_of(month as int) { Some(n) => n, None => Seq::empty() }),
    {
        proof { reveal_strlit(""); }
        if month == 1 { "January" }
        else if month == 2 { "February" }
        else if month == 3 { "March" }
        else if month == 4 { "April" }
        else if month == 5 { "May" }
        else if month == 6 { "June" }
        else if month == 7 { "July" }
        else if month == 8 { "August" }
        else if month == 9 { "September" }
        else if month == 10 { "October" }
        else if month == 11 { "November" }
        else if month == 12 { "December" }
        else { "" }
    }

    /// Three-letter month abbreviation; empty outside `1..=12`.
    pub fn month_name_short(month: u32) -> (name: &'static str)
        ensures
            name@ == (match month_abbrev_of(month as int) { Some(n) => n, None => Seq::empty() }),
    {
        proof { reveal_strlit(""); }
        if month == 1 { "Jan" }
        else if month == 2 { "Feb" }
        else if month == 3 { "Mar" }
        else if month == 4 { "Apr" }
        else if month == 5 { "May" }
        else if month == 6 { "Jun" }
        else if month == 7 { "Jul" }
        else if month == 8 { "Aug" }
        else if month == 9 { "Sep" }
        else if month == 10 { "Oct" }
        else if month == 11 { "Nov" }
        else if month == 12 { "Dec" }
        else { "" }
    }

    /// Shows the previous month when allowed; returns whether it moved
    /// (the month-change callback fires exactly then).
    pub fn prev_month(&mut self) -> (moved: bool)
        requires
            old(self).wf(),
            old(self).month == 1 ==> old(self).year >= 1,
        ensures
            moved == old(self).may_go_prev(),
            moved ==> (final(self).year as int, final(self).month as int) == prev_month_of(
                old(self).year as int,
                old(self).month as int,
            ),
            !moved ==> final(self).year == old(self).year && final(self).month == old(self).month,
            final(self).wf(),
            final(self).selected_day == old(self).selected_day,
            final(self).min_date == old(self).min_date,
            final(self).max_date == old(self).max_date,
            final(self).disabled_days@ == old(self).disabled_days@,
            *final(self) == (Calendar { year: final(self).year, month: final(self).month, ..*old(self) }),
    {
        if !self.can_go_prev() {
            return false;
        }
        if self.month == 1 {
            self.month = 12;
            self.year = self.year - 1;
        } else {
            self.month = self.month - 1;
        }
        true
    }

    /// Shows the next month when allowed; returns whether it moved.
    pub fn next_month(&mut self) -> (moved: bool)
        requires
            old(self).wf(),
            old(self).month == 12 ==> old(self).year < u32::MAX,
        ensures
            moved == old(self).may_go_next(),
            moved ==> (final(self).year as int, final(self).month as int) == next_month_of(
                old(self).year as int,
                old(self).month as int,
            ),
            !moved ==> final(self).year == old(self).year && final(self).month == old(self).month,
            final(self).wf(),
            final(self).selected_day == old(self).selected_day,
            final(self).min_date == old(self).min_date,
            final(self).max_date == old(self).max_date,
            final(self).disabled_days@ == old(self).disabled_days@,
            *final(self) == (Calendar { year: final(self).year, month: final(self).month, ..*old(self) }),
    {
        if !self.can_go_next() {
            return false;
        }
        if self.month == 12 {
            self.month = 1;
            self.year = self.year + 1;
        } else {
            self.month = self.month + 1;
        }
        true
    }

    /// Recomputes the month grid of the shown month: its length, the
    /// weekday of its first day and the length of the month before it.
    pub fn refresh(&mut self)
        requires
            old(self).wf(),
            first_weekday_fits(old(self).year as int, old(self).month as int),
        ensures
            final(self).days_in_month == month_length(is_leap(old(self).year as int), old(self).month as int),
            final(self).first_weekday == weekday(old(self).year as int, old(self).month as int, 1),
            final(self).prev_month_days == month_length(
                is_leap(prev_month_of(old(self).year as int, old(self).month as int).0),
                prev_month_of(old(self).year as int, old(self).month as int).1,
            ),
            final(self).year == old(self).year,
            final(self).month == old(self).month,
            final(self).selected_day == old(self).selected_day,
            final(self).min_date == old(self).min_date,
            final(self).max_date == old(self).max_date,
            final(self).disabled_days@ == old(self).disabled_days@,
            final(self).wf(),
    {
        self.days_in_month = Self::compute_days_in_month(self.year, self.month);
        self.first_weekday = Self::first_day_of_week(self.year, self.month);
        let (py, pm) = if self.month == 1 { (self.year - 1, 12) } else { (self.year, self.month - 1) };
        self.prev_month_days = Self::compute_days_in_month(py, pm);
    }

    /// Rows of the day grid: enough weeks for the leading blanks and all days.
    pub fn total_rows(&self) -> (rows: u32)
        requires
            self.first_weekday + self.days_in_month <= u32::MAX,
        ensures
            rows == grid_rows(self.first_weekday as int, self.days_in_month as int),
    {
        let cells = self.first_weekday + self.days_in_month;
        cells / 7 + if cells % 7 != 0 { 1 } else { 0 }
    }

    /// Day shown in grid cell (`row`, `col`), if the cell holds a day of
    /// the shown month.
    pub fn day_in_grid(&self, row: u32, col: u32) -> (day: Option<u32>)
        requires
            self.first_weekday + self.days_in_month + 6 <= u32::MAX,
        ensures
            (col >= 7 || row >= grid_rows(self.first_weekday as int, self.days_in_month as int))
                ==> day is None,
            (col < 7 && row < grid_rows(self.first_weekday as int, self.days_in_month as int)) ==> (
            match day_in_cell(row * 7 + col, self.first_weekday as int, self.days_in_month as int) {
                Some(d) => day == Some(d as u32),
                None => day is None,
            }),
    {
        let rows = self.total_rows();
        if col >= 7 || row >= rows {
            return None;
        }
        let ghost cells = self.first_weekday + self.days_in_month;
        assert(row * 7 + col <= cells + 5) by (nonlinear_arith)
            requires row < rows, col < 7, rows == (cells + 6) / 7, cells >= 0;
        let cell_idx = row * 7 + col;
        if cell_idx < self.first_weekday {
            return None;
        }
        let day = cell_idx - self.first_weekday + 1;
        if day >= 1 && day <= self.days_in_month {
            Some(day)
        } else {
            None
        }
    }

    /// A click on `day`: selects it unless it is disabled. Returns whether
    /// it was selected (the select callback fires exactly then).
    pub fn select_day(&mut self, day: u32) -> (selected: bool)
        ensures
            selected == !old(self).day_disabled(day),
            selected ==> final(self).selected_day == Some(day),
            !selected ==> final(self).selected_day == old(self).selected_day,
            final(self).year == old(self).year,
            final(self).month == old(self).month,
            final(self).min_date == old(self).min_date,
            final(self).max_date == old(self).max_date,
            final(self).disabled_days@ == old(self).disabled_days@,
    {
        if self.is_day_disabled(day) {
            return false;
        }
        self.selected_day = Some(day);
        true
    }

    /// The pointer is over `day`: it is highlighted unless disabled.
    /// Returns whether the day is clickable.
    pub fn hover_day(&mut self, day: u32) -> (clickable: bool)
        ensures
            clickable == !old(self).day_disabled(day),
            final(self).hovered_day == (if clickable { Some(day) } else { None }),
            final(self).year == old(self).year,
            final(self).month == old(self).month,
            final(self).selected_day == old(self).selected_day,
            final(self).min_date == old(self).min_date,
            final(self).max_date == old(self).max_date,
            final(self).disabled_days@ == old(self).disabled_days@,
    {
        let disabled = self.is_day_disabled(day);
        self.hovered_day = if disabled { None } else { Some(day) };
        !disabled
    }

    /// Month listed at row `index` of the month column, if any.
    pub fn selector_month_at(index: u32) -> (month: Option<u32>)
        requires
            index < u32::MAX,
        ensures
            month == (if index < 12 { Some((index + 1) as u32) } else { None::<u32> }),
    {
        let m = index + 1;
        if m >= 1 && m <= 12 { Some(m) } else { None }
    }

    /// Year listed at row `index` of the year column (which starts ten
    /// years before the shown year), if it is positive.
    pub fn selector_year_at(&self, index: i32) -> (year: Option<u32>)
        requires
            i32::MIN + 10 <= (self.year as i32) as int,
            i32::MIN <= (self.year as i32) as int - 10 + index <= i32::MAX,
        ensures
            ({
                let y = (self.year as i32) as int - 10 + index;
                year == (if y > 0 { Some(y as u32) } else { None::<u32> })
            }),
    {
        let base_year = self.year as i32 - SELECTOR_YEAR_COUNT / 2;
        let yr = base_year + index;
        if yr > 0 { Some(yr as u32) } else { None }
    }

    /// Opens the selector in the given view.
    pub fn open_selector(&mut self, view: SelectorView)
        ensures
            final(self).selector_view == view,
            final(self).year == old(self).year,
            final(self).month == old(self).month,
            final(self).selected_day == old(self).selected_day,
    {
        self.selector_view = view;
    }

    /// Picks `month` in the month column; returns the newly shown
    /// (year, month) for the month-change callback.
    pub fn choose_month(&mut self, month: u32) -> (shown: (u32, u32))
        requires
            1 <= month <= 12,
        ensures
            final(self).month == month,
            final(self).year == old(self).year,
            final(self).wf(),
            shown == (final(self).year, final(self).month),
            final(self).selected_day == old(self).selected_day,
    {
        self.month = month;
        (self.year, self.month)
    }

    /// Picks `year` in the year column; returns the newly shown
    /// (year, month) for the month-change callback.
    pub fn choose_year(&mut self, year: u32) -> (shown: (u32, u32))
        ensures
            final(self).year == year,
            final(self).month == old(self).month,
            shown == (final(self).year, final(self).month),
            final(self).selected_day == old(self).selected_day,
    {
        self.year = year;
        (self.year, self.month)
    }

    /// Day numbers of the previous month shown before the first of the
    /// shown month, in grid order.
    pub fn prev_trailing_days(&self) -> (days: Vec<u32>)
        requires
            self.first_weekday <= self.prev_month_days,
        ensures
            days@.len() == self.first_weekday,
            forall|i: int| 0 <= i < days@.len() ==> days@[i] == self.prev_month_days - self.first_weekday + i + 1,
    {
        let mut days: Vec<u32> = Vec::new();
        let mut i: u32 = 0;
        while i < self.first_weekday
            invariant
                i <= self.first_weekday <= self.prev_month_days,
                days@.len() == i,
                forall|j: int| 0 <= j < i ==> days@[j] == self.prev_month_days - self.first_weekday + j + 1,
            decreases self.first_weekday - i,
        {
            days.push(self.prev_month_days - self.first_weekday + i + 1);
            i = i + 1;
        }
        days
    }

    /// Number of next-month days that fill the last grid row.
    pub fn next_trailing_count(&self) -> (n: u32)
        requires
            self.first_weekday + self.days_in_month + 6 <= u32::MAX,
        ensures
            n == grid_rows(self.first_weekday as int, self.days_in_month as int) * 7
                - (self.first_weekday + self.days_in_month),
    {
        let last_cell = self.first_weekday + self.days_in_month;
        let rows = self.total_rows();
        assert(rows * 7 >= last_cell && rows * 7 <= last_cell + 6) by (nonlinear_arith)
            requires rows == (last_cell + 6) / 7;
        rows * 7 - last_cell
    }

    /// Index of the indicator whose tooltip shows: the first indicator on
    /// the hovered day, when it has a tooltip.
    pub fn tooltip_indicator(&self) -> (idx: Option<usize>)
        ensures
            match idx {
                Some(i) => {
                    &&& self.hovered_day is Some
                    &&& i < self.indicators@.len()
                    &&& self.indicators@[i as int].day == self.hovered_day->0
                    &&& self.indicators@[i as int].tooltip is Some
                    &&& forall|j: int| 0 <= j < i ==> self.indicators@[j].day != self.hovered_day->0
                },
                None => self.hovered_day is None || forall|i: int|
                    0 <= i < self.indicators@.len() && self.indicators@[i].day == self.hovered_day->0
                        ==> (self.indicators@[i].tooltip is None || exists|j: int|
                        0 <= j < i && self.indicators@[j].day == self.hovered_day->0),
            },
    {
        match self.hovered_day {
            None => None,
            Some(hovered) => {
                let mut i: usize = 0;
                while i < self.indicators.len()
                    invariant
                        i <= self.indicators@.len(),
                        self.hovered_day == Some(hovered),
                        forall|j: int| 0 <= j < i ==> self.indicators@[j].day != hovered,
                    decreases self.indicators.len() - i,
                {
                    if self.indicators[i].day == hovered {
                        if self.indicators[i].tooltip.is_some() {
                            return Some(i);
                        } else {
                            assert forall|k: int|
                                0 <= k < self.indicators@.len() && self.indicators@[k].day == hovered
                                implies (self.indicators@[k].tooltip is None || exists|j: int|
                                0 <= j < k && self.indicators@[j].day == hovered) by {
                                if k > i {
                                    assert(self.indicators@[i as int].day == hovered);
                                }
                            }
                            return None;
                        }
                    }
                    i = i + 1;
                }
                None
            },
        }
    }
}


/// A calendar on which two clicks pick a range of days.
pub struct CalendarRange {
    pub calendar: Calendar,
    pub range_start: Option<u32>,
    pub range_end: Option<u32>,
}

/// What a press on a day of a range calendar did.
#[derive(Clone, Copy, Debug, PartialEq, Eq, Structural)]
pub enum RangePress {
    /// The day cannot be picked: the press goes on to the calendar.
    ToCalendar,
    /// The day starts a new range.
    Started,
    /// The day ends the range; the range callback gets (first, last).
    Completed(u32, u32),
}

/// The picked range with its ends in order.
pub open spec fn ordered_range(start: Option<u32>, end: Option<u32>) -> Option<(u32, u32)> {
    match (start, end) {
        (Some(s), Some(e)) => if s <= e { Some((s, e)) } else { Some((e, s)) },
        _ => None,
    }
}

impl CalendarRange {
    /// A range calendar on January 2026 with nothing picked.
    pub fn new() -> (c: CalendarRange)
        ensures
            c.calendar.wf(),
            c.calendar.year == 2026,
            c.calendar.month == 1,
            c.range_start is None,
            c.range_end is None,
    {
        CalendarRange { calendar: Calendar::new(), range_start: None, range_end: None }
    }

    /// The picked range, first day first, once both ends are picked.
    pub fn range_ordered(&self) -> (r: Option<(u32, u32)>)
        ensures
            r == ordered_range(self.range_start, self.range_end),
    {
        match (self.range_start, self.range_end) {
            (Some(s), Some(e)) => if s <= e { Some((s, e)) } else { Some((e, s)) },
            _ => None,
        }
    }

    /// A press on day `day` of the shown month: a day that can be picked
    /// ends the range when only its start is picked, and starts a new range
    /// otherwise.
    pub fn day_pressed(&mut self, day: u32) -> (r: RangePress)
        ensures
            final(self).calendar.year == old(self).calendar.year,
            final(self).calendar.month == old(self).calendar.month,
            old(self).calendar.day_disabled(day) ==> r == RangePress::ToCalendar
                && final(self).range_start == old(self).range_start && final(self).range_end == old(self).range_end,
            !old(self).calendar.day_disabled(day) && old(self).range_start is Some && old(self).range_end is None ==> {
                &&& final(self).range_start == old(self).range_start
                &&& final(self).range_end == Some(day)
                &&& r == (match ordered_range(old(self).range_start, Some(day)) {
                    Some((s, e)) => RangePress::Completed(s, e),
                    None => RangePress::Started,
                })
            },
            !old(self).calendar.day_disabled(day) && !(old(self).range_start is Some && old(self).range_end is None) ==> {
                &&& final(self).range_start == Some(day)
                &&& final(self).range_end is None
                &&& r == RangePress::Started
            },
    {
        if self.calendar.is_day_disabled(day) {
            return RangePress::ToCalendar;
        }
        if self.range_start.is_some() && self.range_end.is_none() {
            self.range_end = Some(day);
            match self.range_ordered() {
                Some((s, e)) => RangePress::Completed(s, e),
                None => RangePress::Started,
            }
        } else {
            self.range_start = Some(day);
            self.range_end = None;
            RangePress::Started
        }
    }
}

/// A completed range runs from the earlier picked day to the later one.
pub proof fn lemma_range_ordered(a: u32, b: u32)
    ensures
        ordered_range(Some(a), Some(b)) matches Some((s, e)) && s <= e
            && ((s == a && e == b) || (s == b && e == a)),
        ordered_range(Some(a), Some(b)) == ordered_range(Some(b), Some(a)),
{
}


/// A button showing the picked date, with a calendar dropdown.
pub struct DatePicker {
    pub year: u32,
    pub month: u32,
    pub selected_day: Option<u32>,
    pub placeholder: String,
    pub open: bool,
    pub calendar: Calendar,
}

/// Where a press on a date picker landed.
#[derive(Clone, Copy, Debug, PartialEq, Eq, Structural)]
pub enum PickerPress {
    /// On the button: the dropdown opens or closes.
    Toggled,
    /// Inside the open dropdown: the calendar handles it.
    ToCalendar,
    /// Elsewhere with the dropdown open: it closes.
    Closed,
    /// Elsewhere with the dropdown closed: nothing happens.
    Ignored,
}

impl DatePicker {
    /// January 2026, nothing picked, placeholder `"Pick a date"`, closed.
    pub fn new() -> (p: DatePicker)
        ensures
            p.year == 2026,
            p.month == 1,
            p.selected_day is None,
            p.placeholder@ == "Pick a date"@,
            !p.open,
    {
        DatePicker {
            year: 2026,
            month: 1,
            selected_day: None,
            placeholder: String::from_str("Pick a date"),
            open: false,
            calendar: Calendar::new(),
        }
    }

    /// The button text: the picked date as `YYYY-MM-DD` (zero-padded), or the
    /// placeholder.
    pub fn display_text(&self) -> (s: String)
        ensures
            s@ == match self.selected_day {
                Some(d) => padded(self.year as nat, 4) + seq!['-'] + padded(self.month as nat, 2) + seq!['-']
                    + padded(d as nat, 2),
                None => self.placeholder@,
            },
    {
        match self.selected_day {
            Some(d) => {
                let mut s = String::new();
                push_padded(&mut s, self.year as u64, 4);
                push_char(&mut s, '-');
                push_padded(&mut s, self.month as u64, 2);
                push_char(&mut s, '-');
                push_padded(&mut s, d as u64, 2);
                s
            },
            None => self.placeholder.clone(),
        }
    }

    /// A press: on the button (`on_button`), inside the open dropdown
    /// (`in_dropdown`), or elsewhere.
    pub fn press(&mut self, on_button: bool, in_dropdown: bool) -> (r: PickerPress)
        ensures
            final(self).year == old(self).year,
            final(self).month == old(self).month,
            final(self).selected_day == old(self).selected_day,
            on_button ==> final(self).open == !old(self).open && r == PickerPress::Toggled,
            !on_button && old(self).open && in_dropdown ==> final(self).open && r == PickerPress::ToCalendar,
            !on_button && old(self).open && !in_dropdown ==> !final(self).open && r == PickerPress::Closed,
            !on_button && !old(self).open ==> !final(self).open && r == PickerPress::Ignored,
    {
        if on_button {
            self.open = !self.open;
            return PickerPress::Toggled;
        }
        if self.open {
            if in_dropdown {
                return PickerPress::ToCalendar;
            }
            self.open = false;
            return PickerPress::Closed;
        }
        PickerPress::Ignored
    }
}

} // verus!
