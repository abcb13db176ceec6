//! Calendar dates of transactions.
use vstd::prelude::*;
use crate::error::StatementError;

verus! {

pub open spec fn is_leap_year(y: int) -> bool {
    y % 4 == 0 && (y % 100 != 0 || y % 400 == 0)
}

pub open spec fn days_in_month(y: int, m: int) -> int {
    if m == 2 {
        if is_leap_year(y) {
            29
        } else {
            28
        }
    } else if m == 4 || m == 6 || m == 9 || m == 11 {
        30
    } else {
        31
    }
}

/// A day of the proleptic Gregorian calendar, within the years that chrono
/// can represent.
pub open spec fn is_calendar_date(y: int, m: int, d: int) -> bool {
    -262143 <= y <= 262142 && 1 <= m <= 12 && 1 <= d <= days_in_month(y, m)
}

/// Relies on chrono::NaiveDate::from_ymd_opt, which returns a date exactly when
/// the month and day name a day of that year in the proleptic Gregorian
/// calendar and the year lies in -262143..=262142.
#[verifier::external_body]
fn calendar_date_exists(year: i32, month: u32, day: u32) -> (r: bool)
    ensures
        r == is_calendar_date(year as int, month as int, day as int),
{
    chrono::NaiveDate::from_ymd_opt(year, month, day).is_some()
}

/// A fully resolved calendar date.
#[derive(Clone, Copy, Debug, PartialEq, Eq, Structural)]
pub struct Date {
    pub year: i32,
    pub month: u32,
    pub day: u32,
}

impl Date {
    pub open spec fn wf(self) -> bool {
        is_calendar_date(self.year as int, self.month as int, self.day as int)
    }

    /// The date with these parts, where it exists.
    pub fn new(year: i32, month: u32, day: u32) -> (r: Option<Date>)
        ensures
            is_calendar_date(year as int, month as int, day as int) ==> r == Some(
                Date { year, month, day },
            ),
            !is_calendar_date(year as int, month as int, day as int) ==> r is None,
    {
        if calendar_date_exists(year, month, day) {
            Some(Date { year, month, day })
        } else {
            None
        }
    }

    /// Dates a transaction line: its month and day, in the statement year.
    pub fn in_statement_year(year: Option<i32>, month: u32, day: u32) -> (r: Result<
        Date,
        StatementError,
    >)
        ensures
            r == date_outcome(year, month as int, day as int),
    {
        match year {
            None => Err(StatementError::UnresolvedYear),
            Some(y) => match Date::new(y, month, day) {
                Some(d) => Ok(d),
                None => Err(StatementError::InvalidDateToken),
            },
        }
    }
}

/// What dating a month and day in the statement year gives.
pub open spec fn date_outcome(year: Option<i32>, month: int, day: int) -> Result<
    Date,
    StatementError,
> {
    match year {
        None => Err(StatementError::UnresolvedYear),
        Some(y) => if is_calendar_date(y as int, month, day) {
            Ok(Date { year: y, month: month as u32, day: day as u32 })
        } else {
            Err(StatementError::InvalidDateToken)
        },
    }
}

} // verus!
