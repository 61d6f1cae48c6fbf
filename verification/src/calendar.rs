//! The date picker of the thread search: month navigation, the day grid,
//! and the state changes of the search bar.

use vstd::prelude::*;
use crate::text::{decimal, push_decimal, push_str};

verus! {

/// The earliest year a calendar date can have (`chrono::NaiveDate`).
pub const MIN_YEAR: i32 = -262143;

/// The latest year a calendar date can have (`chrono::NaiveDate`).
pub const MAX_YEAR: i32 = 262142;

/// A month shown by the date picker.
#[derive(Debug, Clone, Copy, PartialEq, Eq, Structural)]
pub struct CalendarMonth {
    pub year: i32,
    pub month: u32,
}

impl CalendarMonth {
    /// A month whose first day is a calendar date.
    pub open spec fn wf(self) -> bool {
        MIN_YEAR <= self.year <= MAX_YEAR && 1 <= self.month <= 12
    }
}

/// The month before `m`: December of the previous year before January.
pub open spec fn prev_month_spec(m: CalendarMonth) -> CalendarMonth {
    if m.month == 1 {
        CalendarMonth { year: (m.year - 1) as i32, month: 12 }
    } else {
        CalendarMonth { year: m.year, month: (m.month - 1) as u32 }
    }
}

/// The month after `m`: January of the next year after December.
pub open spec fn next_month_spec(m: CalendarMonth) -> CalendarMonth {
    if m.month == 12 {
        CalendarMonth { year: (m.year + 1) as i32, month: 1 }
    } else {
        CalendarMonth { year: m.year, month: (m.month + 1) as u32 }
    }
}

/// The month before `m` (see [`prev_month_spec`]); the first month of the
/// calendar has none before it.
pub fn previous_month(m: CalendarMonth) -> (r: CalendarMonth)
    requires
        m.wf(),
        !(m.year == MIN_YEAR && m.month == 1),
    ensures
        r == prev_month_spec(m),
        r.wf(),
{
    if m.month == 1 {
        CalendarMonth { year: m.year - 1, month: 12 }
    } else {
        CalendarMonth { year: m.year, month: m.month - 1 }
    }
}

/// The month after `m` (see [`next_month_spec`]); the last month of the
/// calendar has none after it.
pub fn next_month(m: CalendarMonth) -> (r: CalendarMonth)
    requires
        m.wf(),
        !(m.year == MAX_YEAR && m.month == 12),
    ensures
        r == next_month_spec(m),
        r.wf(),
{
    if m.month == 12 {
        CalendarMonth { year: m.year + 1, month: 1 }
    } else {
        CalendarMonth { year: m.year, month: m.month + 1 }
    }
}

/// Going one month back and then forward returns to the month.
pub proof fn law_next_undoes_previous(m: CalendarMonth)
    requires
        m.wf(),
        !(m.year == MIN_YEAR && m.month == 1),
    ensures
        next_month_spec(prev_month_spec(m)) == m,
{
}

/// Going one month forward and then back returns to the month.
pub proof fn law_previous_undoes_next(m: CalendarMonth)
    requires
        m.wf(),
        !(m.year == MAX_YEAR && m.month == 12),
    ensures
        prev_month_spec(next_month_spec(m)) == m,
{
}

/// Leap years of the proleptic Gregorian calendar.
pub open spec fn leap_year(year: int) -> bool {
    year % 4 == 0 && (year % 100 != 0 || year % 400 == 0)
}

/// The number of days of a month.
pub open spec fn days_in_month_spec(year: int, month: int) -> int {
    if month == 2 {
        if leap_year(year) {
            29
        } else {
            28
        }
    } else if month == 4 || month == 6 || month == 9 || month == 11 {
        30
    } else {
        31
    }
}

fn divides(year: i32, d: i32) -> (r: bool)
    requires
        d > 0,
    ensures
        r == (year as int % d as int == 0),
{
    match year.checked_rem_euclid(d) {
        Some(x) => x == 0,
        None => false,
    }
}

fn is_leap(year: i32) -> (r: bool)
    ensures
        r == leap_year(year as int),
{
    divides(year, 4) && (!divides(year, 100) || divides(year, 400))
}

/// The number of days of a month (see [`days_in_month_spec`]).
pub fn days_in_month(m: CalendarMonth) -> (r: u32)
    requires
        m.wf(),
    ensures
        r as int == days_in_month_spec(m.year as int, m.month as int),
{
    if m.month == 2 {
        if is_leap(m.year) {
            29
        } else {
            28
        }
    } else if m.month == 4 || m.month == 6 || m.month == 9 || m.month == 11 {
        30
    } else {
        31
    }
}

/// Offsets of the months in the weekday formula of the proleptic
/// Gregorian calendar (Sakamoto's table).
pub open spec fn month_offset(month: int) -> int {
    if month == 1 {
        0
    } else if month == 2 {
        3
    } else if month == 3 {
        2
    } else if month == 4 {
        5
    } else if month == 5 {
        0
    } else if month == 6 {
        3
    } else if month == 7 {
        5
    } else if month == 8 {
        1
    } else if month == 9 {
        4
    } else if month == 10 {
        6
    } else if month == 11 {
        2
    } else {
        4
    }
}

/// Day of the week of a date of the proleptic Gregorian calendar, counted
/// from Monday as 0: January and February count in the year before, and
/// each year moves the weekday by one, each leap day by one more.
pub open spec fn weekday_from_monday(year: int, month: int, day: int) -> int {
    let y = if month < 3 {
        year - 1
    } else {
        year
    };
    (y + y / 4 - y / 100 + y / 400 + month_offset(month) + day + 6) % 7
}

fn month_offset_exec(month: u32) -> (r: i64)
    requires
        1 <= month <= 12,
    ensures
        r == month_offset(month as int),
{
    if month == 1 {
        0
    } else if month == 2 {
        3
    } else if month == 3 {
        2
    } else if month == 4 {
        5
    } else if month == 5 {
        0
    } else if month == 6 {
        3
    } else if month == 7 {
        5
    } else if month == 8 {
        1
    } else if month == 9 {
        4
    } else if month == 10 {
        6
    } else if month == 11 {
        2
    } else {
        4
    }
}

/// Shifting a year by 400 years keeps the weekday formula modulo 7 (400
/// years hold a whole number of weeks).
proof fn lemma_shift_400(y: int, k: int, rest: int)
    requires
        k >= 0,
    ensures
        ((y + 400 * k) + (y + 400 * k) / 4 - (y + 400 * k) / 100 + (y + 400 * k) / 400 + rest) % 7 == (y + y
            / 4 - y / 100 + y / 400 + rest) % 7,
{
    assert((y + 400 * k) / 4 == y / 4 + 100 * k) by (nonlinear_arith);
    assert((y + 400 * k) / 100 == y / 100 + 4 * k) by (nonlinear_arith);
    assert((y + 400 * k) / 400 == y / 400 + k) by (nonlinear_arith);
    let a = y + y / 4 - y / 100 + y / 400 + rest;
    assert((a + 497 * k) % 7 == a % 7) by (nonlinear_arith)
        requires
            k >= 0,
    {
        vstd::arithmetic::div_mod::lemma_mod_multiples_vanish(71 * k, a, 7);
        assert(7 * (71 * k) == 497 * k) by (nonlinear_arith);
    }
}

/// The weekday of the first of a month, Monday being 0 (see
/// [`weekday_from_monday`]).
fn first_weekday_from_monday(year: i32, month: u32) -> (r: u32)
    requires
        MIN_YEAR <= year <= MAX_YEAR,
        1 <= month <= 12,
    ensures
        r == weekday_from_monday(year as int, month as int, 1),
        r < 7,
{
    let before: i64 = if month < 3 {
        1
    } else {
        0
    };
    let y: i64 = year as i64 - before + 400000;
    let s: i64 = y + y / 4 - y / 100 + y / 400 + month_offset_exec(month) + 1 + 6;
    let r = s % 7;
    proof {
        let y0: int = year as int - before as int;
        assert(y as int == y0 + 400 * 1000);
        lemma_shift_400(y0, 1000, month_offset(month as int) + 1 + 6);
    }
    r as u32
}

/// The day shown in slot `slot` (week-major, Monday first) of a month
/// whose first day falls `leading` slots in, with `days` days.
pub open spec fn cell_spec(leading: int, days: int, slot: int) -> Option<u32> {
    let day = slot - leading + 1;
    if 1 <= day <= days {
        Some(day as u32)
    } else {
        None
    }
}

/// The six weeks of day slots of a month (see [`cell_spec`]).
pub open spec fn cells_spec(leading: int, days: int) -> Seq<Option<u32>> {
    Seq::new(42, |slot: int| cell_spec(leading, days, slot))
}

/// The day slots of the picker for a month: six rows of seven, each the
/// day of the month or empty.
pub fn calendar_cells(m: CalendarMonth) -> (r: Vec<Option<u32>>)
    requires
        m.wf(),
    ensures
        r@ == cells_spec(
            weekday_from_monday(m.year as int, m.month as int, 1),
            days_in_month_spec(m.year as int, m.month as int),
        ),
{
    let leading = first_weekday_from_monday(m.year, m.month);
    let days = days_in_month(m);
    let ghost want = cells_spec(leading as int, days as int);
    let mut out: Vec<Option<u32>> = Vec::new();
    let mut slot: u32 = 0;
    while slot < 42
        invariant
            slot <= 42,
            leading < 7,
            days <= 31,
            want == cells_spec(leading as int, days as int),
            out@ == want.take(slot as int),
        decreases 42 - slot,
    {
        if slot + 1 >= leading + 1 && slot + 1 - leading <= days {
            out.push(Some(slot + 1 - leading));
        } else {
            out.push(None);
        }
        slot = slot + 1;
        assert(out@ =~= want.take(slot as int));
    }
    assert(want.take(42) =~= want);
    out
}

/// An integer in decimal, with a minus sign when negative.
pub open spec fn int_text(v: int) -> Seq<char> {
    if v < 0 {
        "-"@ + decimal((-v) as nat)
    } else {
        decimal(v as nat)
    }
}

/// The title of a month: `"<year> 年 <month> 月"`.
pub open spec fn month_title_spec(m: CalendarMonth) -> Seq<char> {
    int_text(m.year as int) + " 年 "@ + decimal(m.month as nat) + " 月"@
}

/// The title of a month (see [`month_title_spec`]).
pub fn month_title(m: CalendarMonth) -> (r: String)
    ensures
        r@ == month_title_spec(m),
{
    let mut s = String::new();
    if m.year < 0 {
        push_str(&mut s, "-");
        let a: i64 = -(m.year as i64);
        push_decimal(&mut s, a as u64);
    } else {
        push_decimal(&mut s, m.year as u64);
    }
    push_str(&mut s, " 年 ");
    push_decimal(&mut s, m.month as u64);
    push_str(&mut s, " 月");
    s
}

/// A calendar date exists (`chrono::NaiveDate::from_ymd_opt` gives one):
/// the year is in range, the month is 1 to 12 and the day within it.
pub open spec fn valid_date(year: i32, month: u32, day: u32) -> bool {
    MIN_YEAR <= year <= MAX_YEAR && 1 <= month <= 12 && 1 <= day <= days_in_month_spec(
        year as int,
        month as int,
    )
}

/// Actions of the thread search bar; a query edit arrives as the edited
/// text.
#[derive(Debug, Clone)]
pub enum ChatThreadSearchAction {
    QueryEdit(String),
    FocusQuery,
    ActivateQuery,
    PreviousResult,
    NextResult,
    ToggleCalendar,
    PreviousMonth,
    NextMonth,
    SelectDate { year: i32, month: u32, day: u32 },
    Close,
}

/// What the shell does after an input of the search bar.
#[derive(Debug, Clone, PartialEq, Eq)]
pub enum SearchBarEffect {
    Nothing,
    /// Search again with this query.
    Search(String),
    /// Move to the previous (`false`) or next (`true`) result.
    Navigate(bool),
    /// Search within this day.
    SearchDay { year: i32, month: u32, day: u32 },
    /// Close the search.
    CloseSearch,
}

/// State of the thread search bar.
#[derive(Debug)]
pub struct ThreadSearchBar {
    pub query: String,
    pub focused: bool,
    pub calendar_open: bool,
    pub calendar_month: CalendarMonth,
}

impl ThreadSearchBar {
    /// An empty bar showing `month` in its picker.
    pub fn new(month: CalendarMonth) -> (r: Self)
        ensures
            r.query@.len() == 0,
            !r.focused,
            !r.calendar_open,
            r.calendar_month == month,
    {
        ThreadSearchBar { query: String::new(), focused: false, calendar_open: false, calendar_month: month }
    }

    /// Handles an input: an edit keeps the new query, focuses and searches;
    /// focus inputs focus; result steps navigate; the picker toggles and
    /// changes month; a valid picked day searches within it, and any pick
    /// closes the picker; closing clears the query, focus and picker.
    pub fn handle(&mut self, input: ChatThreadSearchAction) -> (r: SearchBarEffect)
        requires
            old(self).calendar_month.wf(),
            input is PreviousMonth ==> !(old(self).calendar_month.year == MIN_YEAR
                && old(self).calendar_month.month == 1),
            input is NextMonth ==> !(old(self).calendar_month.year == MAX_YEAR
                && old(self).calendar_month.month == 12),
        ensures
            final(self).calendar_month.wf(),
            match input {
                ChatThreadSearchAction::QueryEdit(q) => final(self).query == q && final(self).focused
                    && final(self).calendar_open == old(self).calendar_open
                    && final(self).calendar_month == old(self).calendar_month
                    && r == SearchBarEffect::Search(q),
                ChatThreadSearchAction::FocusQuery | ChatThreadSearchAction::ActivateQuery => final(self).focused
                    && final(self).query == old(self).query && final(self).calendar_open
                    == old(self).calendar_open && final(self).calendar_month == old(self).calendar_month
                    && r == SearchBarEffect::Nothing,
                ChatThreadSearchAction::PreviousResult => *final(self) == *old(self) && r == SearchBarEffect::Navigate(false),
                ChatThreadSearchAction::NextResult => *final(self) == *old(self) && r == SearchBarEffect::Navigate(true),
                ChatThreadSearchAction::ToggleCalendar => final(self).calendar_open == !old(self).calendar_open
                    && final(self).query == old(self).query && final(self).focused == old(self).focused
                    && final(self).calendar_month == old(self).calendar_month
                    && r == SearchBarEffect::Nothing,
                ChatThreadSearchAction::PreviousMonth => final(self).calendar_month == prev_month_spec(
                    old(self).calendar_month,
                ) && final(self).query == old(self).query && final(self).focused == old(self).focused
                    && final(self).calendar_open == old(self).calendar_open && r == SearchBarEffect::Nothing,
                ChatThreadSearchAction::NextMonth => final(self).calendar_month == next_month_spec(
                    old(self).calendar_month,
                ) && final(self).query == old(self).query && final(self).focused == old(self).focused
                    && final(self).calendar_open == old(self).calendar_open && r == SearchBarEffect::Nothing,
                ChatThreadSearchAction::SelectDate { year, month, day } => !final(self).calendar_open
                    && final(self).query == old(self).query && final(self).focused == old(self).focused
                    && final(self).calendar_month == old(self).calendar_month && r == (if valid_date(
                    year,
                    month,
                    day,
                ) {
                    SearchBarEffect::SearchDay { year, month, day }
                } else {
                    SearchBarEffect::Nothing
                }),
                ChatThreadSearchAction::Close => final(self).query@.len() == 0 && !final(self).focused
                    && !final(self).calendar_open && final(self).calendar_month == old(self).calendar_month
                    && r == SearchBarEffect::CloseSearch,
            },
    {
        match input {
            ChatThreadSearchAction::QueryEdit(q) => {
                self.query = q.clone();
                self.focused = true;
                SearchBarEffect::Search(q)
            },
            ChatThreadSearchAction::FocusQuery | ChatThreadSearchAction::ActivateQuery => {
                self.focused = true;
                SearchBarEffect::Nothing
            },
            ChatThreadSearchAction::PreviousResult => SearchBarEffect::Navigate(false),
            ChatThreadSearchAction::NextResult => SearchBarEffect::Navigate(true),
            ChatThreadSearchAction::ToggleCalendar => {
                self.calendar_open = !self.calendar_open;
                SearchBarEffect::Nothing
            },
            ChatThreadSearchAction::PreviousMonth => {
                self.calendar_month = previous_month(self.calendar_month);
                SearchBarEffect::Nothing
            },
            ChatThreadSearchAction::NextMonth => {
                self.calendar_month = next_month(self.calendar_month);
                SearchBarEffect::Nothing
            },
            ChatThreadSearchAction::SelectDate { year, month, day } => {
                self.calendar_open = false;
                if MIN_YEAR <= year && year <= MAX_YEAR && 1 <= month && month <= 12 && 1 <= day
                    && day <= days_in_month(CalendarMonth { year, month }) {
                    SearchBarEffect::SearchDay { year, month, day }
                } else {
                    SearchBarEffect::Nothing
                }
            },
            ChatThreadSearchAction::Close => {
                self.query = String::new();
                self.focused = false;
                self.calendar_open = false;
                SearchBarEffect::CloseSearch
            },
        }
    }
}

} // verus!
