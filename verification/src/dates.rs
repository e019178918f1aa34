//! Gregorian calendar arithmetic shared by the calendar widgets.
use vstd::prelude::*;

verus! {

/// Quotient of `a / b` rounded toward zero, as Rust computes it for signed integers.
pub open spec fn tdiv(a: int, b: int) -> int {
    if a >= 0 { a / b } else { -((-a) / b) }
}

/// Remainder that goes with [`tdiv`]: its sign is that of `a`.
pub open spec fn trem(a: int, b: int) -> int {
    a - b * tdiv(a, b)
}

/// Gregorian leap-year rule.
pub open spec fn is_leap(y: int) -> bool {
    (y % 4 == 0 && y % 100 != 0) || y % 400 == 0
}

/// Length of month `month` in a year whose leap status is `leap`; months
/// outside `1..=12` count as 30 days.
pub open spec fn month_length(leap: bool, month: int) -> int {
    if month == 1 || month == 3 || month == 5 || month == 7 || month == 8 || month == 10
        || month == 12 {
        31
    } else if month == 4 || month == 6 || month == 9 || month == 11 {
        30
    } else if month == 2 {
        if leap { 29 } else { 28 }
    } else {
        30
    }
}

/// Sakamoto's month offsets, indexed by month `1..=12`.
pub open spec fn month_offset(month: int) -> int {
    if month == 1 { 0 }
    else if month == 2 { 3 }
    else if month == 3 { 2 }
    else if month == 4 { 5 }
    else if month == 5 { 0 }
    else if month == 6 { 3 }
    else if month == 7 { 5 }
    else if month == 8 { 1 }
    else if month == 9 { 4 }
    else if month == 10 { 6 }
    else if month == 11 { 2 }
    else { 4 }
}

/// The year Sakamoto's method works with: January and February count
/// as months of the previous year.
pub open spec fn shifted_year(year: int, month: int) -> int {
    if month < 3 { year - 1 } else { year }
}

/// Leap days counted up to (shifted) year `y`, with Rust's truncating division.
pub open spec fn leap_count(y: int) -> int {
    tdiv(y, 4) - tdiv(y, 100) + tdiv(y, 400)
}

/// The sum whose remainder modulo 7 is the weekday.
pub open spec fn weekday_sum(year: int, month: int, day: int) -> int {
    let y = shifted_year(year, month);
    y + leap_count(y) + month_offset(month) + day
}

/// Day of the week (0 = Sunday ... 6 = Saturday) of a date with a
/// non-negative weekday sum; for negative sums this is the (non-positive)
/// truncated remainder.
pub open spec fn weekday(year: int, month: int, day: int) -> int {
    trem(weekday_sum(year, month, day), 7)
}

pub open spec fn month_table() -> Seq<u32> {
    seq![0u32, 3, 2, 5, 0, 3, 5, 1, 4, 6, 2, 4]
}

/// English month name; `None` outside `1..=12`.
pub open spec fn month_name_of(month: int) -> Option<Seq<char>> {
    if month == 1 { Some("January"@) }
    else if month == 2 { Some("February"@) }
    else if month == 3 { Some("March"@) }
    else if month == 4 { Some("April"@) }
    else if month == 5 { Some("May"@) }
    else if month == 6 { Some("June"@) }
    else if month == 7 { Some("July"@) }
    else if month == 8 { Some("August"@) }
    else if month == 9 { Some("September"@) }
    else if month == 10 { Some("October"@) }
    else if month == 11 { Some("November"@) }
    else if month == 12 { Some("December"@) }
    else { None }
}

/// Three-letter English month abbreviation; `None` outside `1..=12`.
pub open spec fn month_abbrev_of(month: int) -> Option<Seq<char>> {
    if month == 1 { Some("Jan"@) }
    else if month == 2 { Some("Feb"@) }
    else if month == 3 { Some("Mar"@) }
    else if month == 4 { Some("Apr"@) }
    else if month == 5 { Some("May"@) }
    else if month == 6 { Some("Jun"@) }
    else if month == 7 { Some("Jul"@) }
    else if month == 8 { Some("Aug"@) }
    else if month == 9 { Some("Sep"@) }
    else if month == 10 { Some("Oct"@) }
    else if month == 11 { Some("Nov"@) }
    else if month == 12 { Some("Dec"@) }
    else { None }
}

/// Month after `(year, month)`, wrapping December into January of the next year.
pub open spec fn next_month_of(year: int, month: int) -> (int, int) {
    if month == 12 { (year + 1, 1) } else { (year, month + 1) }
}

/// Month before `(year, month)`, wrapping January into December of the previous year.
pub open spec fn prev_month_of(year: int, month: int) -> (int, int) {
    if month == 1 { (year - 1, 12) } else { (year, month - 1) }
}

/// Number of rows a month grid needs when its first day falls in column
/// `first_weekday`.
pub open spec fn grid_rows(first_weekday: int, days: int) -> int {
    (first_weekday + days + 6) / 7
}

/// Day shown in grid cell `cell` (row-major, 7 columns), if any.
pub open spec fn day_in_cell(cell: int, first_weekday: int, days: int) -> Option<int> {
    if cell < first_weekday || cell - first_weekday + 1 > days {
        None
    } else {
        Some(cell - first_weekday + 1)
    }
}

/// Stepping a month back and then forward (or forward and then back)
/// returns to the month one started from.
pub proof fn lemma_month_step_undo(year: int, month: int)
    requires
        1 <= month <= 12,
    ensures
        next_month_of(prev_month_of(year, month).0, prev_month_of(year, month).1) == (year, month),
        prev_month_of(next_month_of(year, month).0, next_month_of(year, month).1) == (year, month),
        1 <= next_month_of(year, month).1 <= 12,
        1 <= prev_month_of(year, month).1 <= 12,
{
}

/// The month grid shows every day of the month exactly once: day `d` is in
/// cell `first_weekday + d - 1`, which lies within the grid's rows, and no
/// other cell shows it.
pub proof fn lemma_grid_covers_month(first_weekday: int, days: int, d: int)
    requires
        0 <= first_weekday <= 6,
        1 <= d <= days,
    ensures
        day_in_cell(first_weekday + d - 1, first_weekday, days) == Some(d),
        first_weekday + d - 1 < 7 * grid_rows(first_weekday, days),
        forall|cell: int| #[trigger] day_in_cell(cell, first_weekday, days) == Some(d) ==> cell == first_weekday + d - 1,
{
    let c = first_weekday + days;
    assert(7 * ((c + 6) / 7) >= c) by (nonlinear_arith)
        requires c >= 0;
}

/// Sakamoto's month offset of `month`.
pub fn month_offset_value(month: u32) -> (r: u32)
    requires
        1 <= month <= 12,
    ensures
        r == month_offset(month as int),
        r <= 6,
{
    if month == 1 { 0 }
    else if month == 2 { 3 }
    else if month == 3 { 2 }
    else if month == 4 { 5 }
    else if month == 5 { 0 }
    else if month == 6 { 3 }
    else if month == 7 { 5 }
    else if month == 8 { 1 }
    else if month == 9 { 4 }
    else if month == 10 { 6 }
    else if month == 11 { 2 }
    else { 4 }
}

// ─── Lemmas ─────────────────────────────────────────────────────────────────

proof fn lemma_div_step(n: int, k: int)
    requires
        n >= 1,
        k > 0,
    ensures
        n / k - (n - 1) / k == (if n % k == 0 { 1int } else { 0int }),
{
    let q = (n - 1) / k;
    let r = (n - 1) % k;
    vstd::arithmetic::div_mod::lemma_fundamental_div_mod(n - 1, k);
    vstd::arithmetic::div_mod::lemma_mod_bound(n - 1, k);
    assert(n == k * q + r + 1);
    if r == k - 1 {
        assert(n == (q + 1) * k) by (nonlinear_arith)
            requires n == k * q + r + 1, r == k - 1;
        vstd::arithmetic::div_mod::lemma_fundamental_div_mod_converse(n, k, q + 1, 0);
    } else {
        assert(n == q * k + (r + 1)) by (nonlinear_arith)
            requires n == k * q + r + 1;
        vstd::arithmetic::div_mod::lemma_fundamental_div_mod_converse(n, k, q, r + 1);
    }
}

/// Going from shifted year `n - 1` to `n` adds `1 + [n is a leap year]` to
/// the year part of the weekday sum.
proof fn lemma_year_step(n: int)
    requires
        n >= 1,
    ensures
        n + leap_count(n) - ((n - 1) + leap_count(n - 1)) == 1 + (if is_leap(n) { 1int } else { 0int }),
{
    lemma_div_step(n, 4);
    lemma_div_step(n, 100);
    lemma_div_step(n, 400);
    if n % 400 == 0 {
        assert(n % 100 == 0 && n % 4 == 0) by {
            vstd::arithmetic::div_mod::lemma_fundamental_div_mod(n, 400);
            let q = n / 400;
            assert(n == 400 * q);
            assert(n == 100 * (4 * q));
            assert(n == 4 * (100 * q));
            vstd::arithmetic::div_mod::lemma_mod_multiples_basic(4 * q, 100);
            vstd::arithmetic::div_mod::lemma_mod_multiples_basic(100 * q, 4);
        }
    } else if n % 100 == 0 {
        assert(n % 4 == 0) by {
            vstd::arithmetic::div_mod::lemma_fundamental_div_mod(n, 100);
            let q = n / 100;
            assert(n == 4 * (25 * q));
            vstd::arithmetic::div_mod::lemma_mod_multiples_basic(25 * q, 4);
        }
    }
}

/// Law: in a year `>= 1`, the first day of each month falls
/// `days_in_month` weekdays after the first day of the month before it,
/// and this also holds from December into January.
pub proof fn lemma_weekday_month_step(year: int, month: int)
    requires
        year >= 1,
        1 <= month <= 12,
    ensures
        ({
            let (ny, nm) = next_month_of(year, month);
            weekday(ny, nm, 1) == (weekday(year, month, 1) + month_length(is_leap(year), month)) % 7
        }),
{
    let y = shifted_year(year, month);
    assert(y >= 0);
    let s = weekday_sum(year, month, 1);
    let (ny, nm) = next_month_of(year, month);
    let s2 = weekday_sum(ny, nm, 1);
    assert(s >= 0);
    assert(s2 >= 0);
    if month == 2 {
        lemma_year_step(year);
        assert(s2 == s - 3 + 2 + 1 + (if is_leap(year) { 1int } else { 0int }));
    } else if month == 12 {
        assert(s2 == s - 4);
    } else {
        assert(shifted_year(ny, nm) == y);
    }
    assert(s2 == s + month_length(is_leap(year), month) - 7 * ((s + month_length(is_leap(year), month) - s2) / 7));
    vstd::arithmetic::div_mod::lemma_mod_add_multiples_vanish(s2, 7);
    let k = (s + month_length(is_leap(year), month) - s2) / 7;
    assert(s + month_length(is_leap(year), month) == s2 + 7 * k);
    vstd::arithmetic::div_mod::lemma_mod_multiples_vanish(k, s2, 7);
}

/// Law: the weekday count starts where the Gregorian calendar does: the
/// first of January of year 1 is a Monday. With the day and month steps
/// below, this fixes the weekday of every date from year 1 on.
pub proof fn lemma_weekday_anchor()
    ensures
        weekday(1, 1, 1) == 1,
{
    assert(shifted_year(1, 1) == 0);
    assert(leap_count(0) == 0);
    assert(weekday_sum(1, 1, 1) == 1);
    assert(tdiv(1, 7) == 0);
}

/// Law: within a month, each day's weekday follows the previous day's.
pub proof fn lemma_weekday_day_step(year: int, month: int, day: int)
    requires
        weekday_sum(year, month, day) >= 0,
    ensures
        weekday(year, month, day + 1) == (weekday(year, month, day) + 1) % 7,
{
    let s = weekday_sum(year, month, day);
    assert(weekday_sum(year, month, day + 1) == s + 1);
    vstd::arithmetic::div_mod::lemma_add_mod_noop(s, 1, 7);
    vstd::arithmetic::div_mod::lemma_small_mod(1, 7);
    vstd::arithmetic::div_mod::lemma_fundamental_div_mod(s, 7);
    vstd::arithmetic::div_mod::lemma_fundamental_div_mod(s + 1, 7);
}

} // verus!
