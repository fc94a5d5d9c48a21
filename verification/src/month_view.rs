//! The month calendar page: stepping between months and laying a month out in weeks that
//! start on Monday.

use vstd::prelude::*;
use crate::datetime::{
    days_in_month, format_month_title, month_length, month_name, valid_date, weekday_from_monday,
    weekday_of, year_text,
};

verus! {

/// The month before `month` of `year`.
pub open spec fn month_before(year: int, month: int) -> (int, int) {
    if month == 1 {
        (year - 1, 12)
    } else {
        (year, month - 1)
    }
}

/// The month after `month` of `year`.
pub open spec fn month_after(year: int, month: int) -> (int, int) {
    if month == 12 {
        (year + 1, 1)
    } else {
        (year, month + 1)
    }
}

/// The month shown after the "previous month" button.
pub fn previous_month(year: i32, month: u32) -> (shown: (i32, u32))
    requires
        1 <= month <= 12,
        month == 1 ==> year > i32::MIN,
    ensures
        1 <= shown.1 <= 12,
        (shown.0 as int, shown.1 as int) == month_before(year as int, month as int),
{
    if month == 1 {
        (year - 1, 12)
    } else {
        (year, month - 1)
    }
}

/// The month shown after the "next month" button.
pub fn next_month(year: i32, month: u32) -> (shown: (i32, u32))
    requires
        1 <= month <= 12,
        month == 12 ==> year < i32::MAX,
    ensures
        1 <= shown.1 <= 12,
        (shown.0 as int, shown.1 as int) == month_after(year as int, month as int),
{
    if month == 12 {
        (year + 1, 1)
    } else {
        (year, month + 1)
    }
}

/// Going one month back and one forward, or one forward and one back, shows the month
/// one started from.
pub proof fn month_steps_undo_each_other(year: int, month: int)
    requires
        1 <= month <= 12,
    ensures
        month_after(month_before(year, month).0, month_before(year, month).1) == (year, month),
        month_before(month_after(year, month).0, month_after(year, month).1) == (year, month),
{
}

/// The number of cells of a month's grid: its days after `offset` blank cells, padded with
/// blank cells to whole weeks.
pub open spec fn grid_len(offset: int, days: int) -> int {
    ((offset + days + 6) / 7) * 7
}

/// The cells of a month's grid: blank before the first day, then the days in order, then blank.
pub open spec fn grid_cells(offset: int, days: int) -> Seq<Option<u32>> {
    Seq::new(
        grid_len(offset, days) as nat,
        |i: int|
            if offset <= i < offset + days {
                Some((i - offset + 1) as u32)
            } else {
                None
            },
    )
}

/// The grid of a month: weeks from Monday to Sunday, blank cells before its first day and
/// after its last, each day in the cell of its weekday.
pub open spec fn month_grid(year: int, month: int) -> Seq<Option<u32>> {
    grid_cells(weekday_from_monday(year, month, 1), month_length(year, month))
}

/// Lays out a month in weeks starting on Monday.
pub fn month_cells(year: i32, month: u32) -> (cells: Vec<Option<u32>>)
    requires
        valid_date(year as int, month as int, 1),
    ensures
        cells@ == month_grid(year as int, month as int),
{
    let offset = weekday_of(year, month, 1);
    let days = days_in_month(year, month);
    let ghost total = grid_len(offset as int, days as int);
    let mut cells: Vec<Option<u32>> = Vec::new();
    let mut i: u32 = 0;
    while i < offset
        invariant
            i <= offset,
            offset < 7,
            cells@ =~= grid_cells(offset as int, days as int).take(i as int),
            28 <= days <= 31,
        decreases offset - i,
    {
        cells.push(None);
        i = i + 1;
    }
    let mut day: u32 = 1;
    while day <= days
        invariant
            1 <= day <= days + 1,
            offset < 7,
            28 <= days <= 31,
            cells@ =~= grid_cells(offset as int, days as int).take(offset + day - 1),
        decreases days + 1 - day,
    {
        cells.push(Some(day));
        day = day + 1;
    }
    while cells.len() % 7 != 0
        invariant
            offset + days <= cells@.len() <= total,
            total == grid_len(offset as int, days as int),
            offset < 7,
            28 <= days <= 31,
            cells@ =~= grid_cells(offset as int, days as int).take(cells@.len() as int),
        decreases total - cells@.len(),
    {
        proof {
            assert(cells@.len() < total) by (nonlinear_arith)
                requires
                    cells@.len() % 7 != 0,
                    offset + days <= cells@.len() <= total,
                    total == ((offset + days + 6) / 7) * 7,
            ;
        }
        cells.push(None);
    }
    proof {
        assert(cells@.len() == total) by (nonlinear_arith)
            requires
                cells@.len() % 7 == 0,
                offset + days <= cells@.len() <= total,
                total == ((offset + days + 6) / 7) * 7,
        ;
    }
    cells
}

/// A month's grid is whole weeks, and the cell of each day holds that day.
pub proof fn month_grid_shape(year: int, month: int, day: int)
    requires
        valid_date(year, month, day),
    ensures
        month_grid(year, month).len() % 7 == 0,
        month_grid(year, month)[weekday_from_monday(year, month, 1) + day - 1] == Some(
            day as u32,
        ),
        weekday_from_monday(year, month, 1) + day - 1 < month_grid(year, month).len(),
{
    let offset = weekday_from_monday(year, month, 1);
    let days = month_length(year, month);
    assert(0 <= offset < 7);
    assert(((offset + days + 6) / 7) * 7 % 7 == 0) by (nonlinear_arith)
        requires
            0 <= offset < 7,
            28 <= days <= 31,
    ;
    assert(offset + days <= ((offset + days + 6) / 7) * 7) by (nonlinear_arith)
        requires
            0 <= offset < 7,
            28 <= days <= 31,
    ;
}

/// Whether a cell of the shown month holds today's date.
pub fn is_today(
    cell: Option<u32>,
    year: i32,
    month: u32,
    today_year: i32,
    today_month: u32,
    today_day: u32,
) -> (today: bool)
    ensures
        today == (cell == Some(today_day) && year == today_year && month == today_month),
{
    match cell {
        Some(day) => year == today_year && month == today_month && day == today_day,
        None => false,
    }
}

/// The title above a month's grid: its name and its year, as "June 2025".
pub fn month_title(year: i32, month: u32) -> (title: String)
    requires
        valid_date(year as int, month as int, 1),
    ensures
        title@ == month_name(month as int) + " "@ + year_text(year as int),
{
    format_month_title(year, month)
}

} // verus!
