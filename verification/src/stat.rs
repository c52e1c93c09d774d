//! The typed value of one table cell, and the errors a schema mismatch
//! raises. Each column carries its own nullability: a missing box-score
//! count is absent, never zero.

use vstd::prelude::*;

verus! {

/// A calendar date, as the year, month and day read from a `YYYY-MM-DD` cell.
#[derive(Clone, Copy, Debug, PartialEq, Eq)]
pub struct GameDate {
    pub year: u32,
    pub month: u32,
    pub day: u32,
}

/// One cell's coerced value.
#[derive(Clone, Debug, PartialEq)]
pub enum Stat {
    /// A mandatory integer count.
    Number(i64),
    /// An integer that may be absent (the cell was empty).
    OptionalNumber(Option<i64>),
    /// A team or opponent code.
    Team(String),
    /// Free-form text, uncoerced.
    Text(String),
    /// A boolean that may be absent.
    Flag(Option<bool>),
    /// The point differential parsed out of a result string.
    Margin(Option<i64>),
    /// A calendar date.
    Date(GameDate),
}

/// The mathematical value of a `Stat`.
pub enum StatView {
    Number(int),
    OptionalNumber(Option<int>),
    Team(Seq<char>),
    Text(Seq<char>),
    Flag(Option<bool>),
    Margin(Option<int>),
    Date { year: int, month: int, day: int },
}

impl View for Stat {
    type V = StatView;

    open spec fn view(&self) -> StatView {
        match self {
            Stat::Number(n) => StatView::Number(*n as int),
            Stat::OptionalNumber(o) => StatView::OptionalNumber(
                match o {
                    Some(n) => Some(*n as int),
                    None => None,
                },
            ),
            Stat::Team(s) => StatView::Team(s@),
            Stat::Text(s) => StatView::Text(s@),
            Stat::Flag(b) => StatView::Flag(*b),
            Stat::Margin(o) => StatView::Margin(
                match o {
                    Some(n) => Some(*n as int),
                    None => None,
                },
            ),
            Stat::Date(d) => StatView::Date {
                year: d.year as int,
                month: d.month as int,
                day: d.day as int,
            },
        }
    }
}

/// A hard failure: the table layout or a cell does not match the fixed
/// schema. The variant names the broken invariant; the payload, where one
/// is carried, names the offending count or raw column.
#[derive(Clone, Copy, Debug, PartialEq, Eq, Structural)]
pub enum ExtractError {
    /// A data row did not have exactly the expected number of raw cells.
    UnexpectedColumnCount(usize),
    /// The cell at this raw column index failed its integer parse.
    InvalidNumber(usize),
    /// The date cell was not a valid `YYYY-MM-DD` calendar date.
    InvalidDate,
    /// The home/away marker was neither empty nor a literal `@`.
    InvalidHomeMarker,
}

pub open spec fn is_leap_year(y: int) -> bool {
    (y % 4 == 0 && y % 100 != 0) || y % 400 == 0
}

pub open spec fn days_in_month(y: int, m: int) -> int {
    if m == 2 {
        if is_leap_year(y) {
            29
        } else {
            28
        }
    } else if m == 4 || m == 6 || m == 9 || m == 11 {
        30
    } else {
        31
    }
}

/// A valid calendar date with a four-digit year.
pub open spec fn valid_date(y: int, m: int, d: int) -> bool {
    0 <= y <= 9999 && 1 <= m <= 12 && 1 <= d <= days_in_month(y, m)
}

pub fn leap_year(y: u32) -> (r: bool)
    ensures
        r == is_leap_year(y as int),
{
    (y % 4 == 0 && y % 100 != 0) || y % 400 == 0
}

pub fn month_days(y: u32, m: u32) -> (r: u32)
    ensures
        r as int == days_in_month(y as int, m as int),
{
    if m == 2 {
        if leap_year(y) {
            29
        } else {
            28
        }
    } else if m == 4 || m == 6 || m == 9 || m == 11 {
        30
    } else {
        31
    }
}

} // verus!
