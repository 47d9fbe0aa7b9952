//! Dates of partial precision: their parts, their columns and their
//! concrete bounds.

use crate::consts::{DECEMBER, JANUARY, MAX_YEAR, MIN_DAY};
use crate::error::{ParseError, ParseErrorView};
use crate::text::{decimal, push_decimal};
use crate::types::{calendar_date, days_in_month, month_length, Day, Month, Year};
use vstd::prelude::*;
use vstd::string::*;

verus! {

/// A date known to the year, to the month or to the day.
#[derive(Debug, Clone, Copy, PartialEq, Eq, Structural, Hash)]
pub enum FuzzyDate {
    /// A full date: year, month and day.
    Day { year: Year, month: Month, day: Day },
    /// A month of a year.
    Month { year: Year, month: Month },
    /// A year.
    Year { year: Year },
}

/// The month after `month` of `year`, as `(year, month)`: none after
/// December 9999.
pub open spec fn month_after(year: int, month: int) -> Option<(int, int)> {
    if month == 12 {
        if year >= 9999 {
            None
        } else {
            Some((year + 1, 1))
        }
    } else {
        Some((year, month + 1))
    }
}

/// The day after `(year, month, day)`: the next day of the month, or the first
/// of the next month where the month has no further day; none after the last
/// day of 9999.
pub open spec fn day_after(year: int, month: int, day: int) -> Option<(int, int, int)> {
    if day < month_length(year, month) {
        Some((year, month, day + 1))
    } else {
        match month_after(year, month) {
            Some((y, m)) => Some((y, m, 1)),
            None => None,
        }
    }
}

/// A concrete date as three integers.
pub open spec fn triple(date: (u16, u8, u8)) -> (int, int, int) {
    (date.0 as int, date.1 as int, date.2 as int)
}

/// An optional concrete date as three integers.
pub open spec fn optional_triple(date: Option<(u16, u8, u8)>) -> Option<(int, int, int)> {
    match date {
        Some(d) => Some(triple(d)),
        None => None,
    }
}

/// Whether the concrete date `a` is earlier than `b`: by year, then month,
/// then day.
pub open spec fn earlier(a: (int, int, int), b: (int, int, int)) -> bool {
    a.0 < b.0 || (a.0 == b.0 && (a.1 < b.1 || (a.1 == b.1 && a.2 < b.2)))
}

/// Whether the concrete date `a` is `b` or earlier.
pub open spec fn not_later(a: (int, int, int), b: (int, int, int)) -> bool {
    a == b || earlier(a, b)
}

/// The message of the error for a day given without a month.
pub open spec fn day_without_month_detail(day: u8) -> Seq<char> {
    "Cannot have day "@ + decimal(day as nat) + " without month"@
}

/// The date that the columns `(year, month, day)` stand for, or why they
/// stand for none. A day without a month is refused first; then the year,
/// the month and the day are checked, in this order.
pub open spec fn columns_date(year: u16, month: Option<u8>, day: Option<u8>) -> Result<
    FuzzyDate,
    ParseErrorView,
> {
    if month is None && day is Some {
        Err(ParseErrorView::InvalidFormat(day_without_month_detail(day->0)))
    } else if !(1 <= year <= 9999) {
        Err(ParseErrorView::InvalidYear(year))
    } else if month is None {
        Ok(FuzzyDate::Year { year: Year::of(year as int) })
    } else if !(1 <= month->0 <= 12) {
        Err(ParseErrorView::InvalidMonth(month->0))
    } else if day is None {
        Ok(FuzzyDate::Month { year: Year::of(year as int), month: Month::of(month->0 as int) })
    } else if !(1 <= day->0 <= month_length(year as int, month->0 as int)) {
        Err(ParseErrorView::InvalidDay { month: month->0, day: day->0, year })
    } else {
        Ok(
            FuzzyDate::Day {
                year: Year::of(year as int),
                month: Month::of(month->0 as int),
                day: Day::of(day->0 as int),
            },
        )
    }
}

/// A result with its error replaced by the error's model.
pub open spec fn date_result(result: Result<FuzzyDate, ParseError>) -> Result<
    FuzzyDate,
    ParseErrorView,
> {
    match result {
        Ok(date) => Ok(date),
        Err(error) => Err(error@),
    }
}

impl FuzzyDate {
    /// The year's number.
    pub open spec fn year_number(self) -> int {
        match self {
            FuzzyDate::Day { year, .. } => year@,
            FuzzyDate::Month { year, .. } => year@,
            FuzzyDate::Year { year } => year@,
        }
    }

    /// The month's number, where the date has a month.
    pub open spec fn month_number(self) -> Option<int> {
        match self {
            FuzzyDate::Day { month, .. } => Some(month@),
            FuzzyDate::Month { month, .. } => Some(month@),
            FuzzyDate::Year { .. } => None,
        }
    }

    /// The day's number, where the date has a day.
    pub open spec fn day_number(self) -> Option<int> {
        match self {
            FuzzyDate::Day { day, .. } => Some(day@),
            FuzzyDate::Month { .. } => None,
            FuzzyDate::Year { .. } => None,
        }
    }

    /// Whether the date's parts are in range: the year in `1..=9999`, the
    /// month in `1..=12`, and the day a day of that month. Every date built
    /// from text or from columns is so; one put together from parts is so
    /// where its day was checked against its own year and month.
    pub open spec fn well_formed(self) -> bool {
        &&& 1 <= self.year_number() <= 9999
        &&& self.month_number() matches Some(m) ==> 1 <= m <= 12
        &&& self.day_number() matches Some(d) ==> 1 <= d <= month_length(
            self.year_number(),
            self.month_number()->0,
        )
    }

    /// The earliest concrete date that the value may stand for.
    pub open spec fn lower(self) -> (int, int, int) {
        match self {
            FuzzyDate::Day { year, month, day } => (year@, month@, day@),
            FuzzyDate::Month { year, month } => (year@, month@, 1),
            FuzzyDate::Year { year } => (year@, 1, 1),
        }
    }

    /// The latest concrete date that the value may stand for.
    pub open spec fn upper(self) -> (int, int, int) {
        match self {
            FuzzyDate::Day { year, month, day } => (year@, month@, day@),
            FuzzyDate::Month { year, month } => (year@, month@, month_length(year@, month@)),
            FuzzyDate::Year { year } => (year@, 12, 31),
        }
    }

    /// The precision's rank: 0 for a year, 1 for a month, 2 for a day.
    pub open spec fn rank(self) -> int {
        match self {
            FuzzyDate::Year { .. } => 0,
            FuzzyDate::Month { .. } => 1,
            FuzzyDate::Day { .. } => 2,
        }
    }

    /// The strict order of dates: by lower bound, and among dates with one
    /// lower bound the less precise first.
    pub open spec fn precedes(self, other: FuzzyDate) -> bool {
        earlier(self.lower(), other.lower()) || (self.lower() == other.lower() && self.rank()
            < other.rank())
    }

    /// Builds a full date from parts that were validated before.
    pub fn new_day(year: Year, month: Month, day: Day) -> (result: Result<FuzzyDate, ParseError>)
        ensures
            result == Ok::<FuzzyDate, ParseError>(FuzzyDate::Day { year, month, day }),
    {
        Ok(FuzzyDate::Day { year, month, day })
    }

    /// Builds a month of a year from parts that were validated before.
    pub fn new_month(year: Year, month: Month) -> (result: Result<FuzzyDate, ParseError>)
        ensures
            result == Ok::<FuzzyDate, ParseError>(FuzzyDate::Month { year, month }),
    {
        Ok(FuzzyDate::Month { year, month })
    }

    /// Builds a year from a year that was validated before.
    pub fn new_year(year: Year) -> (result: Result<FuzzyDate, ParseError>)
        ensures
            result == Ok::<FuzzyDate, ParseError>(FuzzyDate::Year { year }),
    {
        Ok(FuzzyDate::Year { year })
    }

    /// The day's number, where the date has a day.
    pub fn day(&self) -> (day: Option<u8>)
        ensures
            day is Some <==> self.day_number() is Some,
            day matches Some(d) ==> self.day_number() == Some(d as int),
    {
        match self {
            FuzzyDate::Day { day, .. } => Some(day.get()),
            FuzzyDate::Month { .. } => None,
            FuzzyDate::Year { .. } => None,
        }
    }

    /// The month's number, where the date has a month.
    pub fn month(&self) -> (month: Option<u8>)
        ensures
            month is Some <==> self.month_number() is Some,
            month matches Some(m) ==> self.month_number() == Some(m as int) && 1 <= m <= 12,
    {
        match self {
            FuzzyDate::Day { month, .. } => Some(month.get()),
            FuzzyDate::Month { month, .. } => Some(month.get()),
            FuzzyDate::Year { .. } => None,
        }
    }

    /// The year's number.
    pub fn year(&self) -> (year: u16)
        ensures
            year == self.year_number(),
            1 <= year <= 9999,
    {
        match self {
            FuzzyDate::Day { year, .. } => year.get(),
            FuzzyDate::Month { year, .. } => year.get(),
            FuzzyDate::Year { year } => year.get(),
        }
    }

    /// The day, where the date has one.
    pub fn day_typed(&self) -> (day: Option<Day>)
        ensures
            day == (match *self {
                FuzzyDate::Day { day, .. } => Some(day),
                FuzzyDate::Month { .. } => None,
                FuzzyDate::Year { .. } => None,
            }),
    {
        match self {
            FuzzyDate::Day { day, .. } => Some(*day),
            FuzzyDate::Month { .. } => None,
            FuzzyDate::Year { .. } => None,
        }
    }

    /// The month, where the date has one.
    pub fn month_typed(&self) -> (month: Option<Month>)
        ensures
            month == (match *self {
                FuzzyDate::Day { month, .. } => Some(month),
                FuzzyDate::Month { month, .. } => Some(month),
                FuzzyDate::Year { .. } => None,
            }),
    {
        match self {
            FuzzyDate::Day { month, .. } => Some(*month),
            FuzzyDate::Month { month, .. } => Some(*month),
            FuzzyDate::Year { .. } => None,
        }
    }

    /// The year.
    pub fn year_typed(&self) -> (year: Year)
        ensures
            year == (match *self {
                FuzzyDate::Day { year, .. } => year,
                FuzzyDate::Month { year, .. } => year,
                FuzzyDate::Year { year } => year,
            }),
    {
        match self {
            FuzzyDate::Day { year, .. } => *year,
            FuzzyDate::Month { year, .. } => *year,
            FuzzyDate::Year { year } => *year,
        }
    }

    /// The date as columns: the year, then the month and the day where the
    /// date has them.
    pub fn to_columns(&self) -> (columns: (u16, Option<u8>, Option<u8>))
        ensures
            columns.0 == self.year_number(),
            columns.1 is Some <==> self.month_number() is Some,
            columns.1 matches Some(m) ==> self.month_number() == Some(m as int),
            columns.2 is Some <==> self.day_number() is Some,
            columns.2 matches Some(d) ==> self.day_number() == Some(d as int),
            columns.2 is Some ==> columns.1 is Some,
    {
        match *self {
            FuzzyDate::Day { year, month, day } => (year.get(), Some(month.get()), Some(day.get())),
            FuzzyDate::Month { year, month } => (year.get(), Some(month.get()), None),
            FuzzyDate::Year { year } => (year.get(), None, None),
        }
    }

    /// Builds a date from columns, validating each: see [`columns_date`].
    pub fn from_columns(year: u16, month: Option<u8>, day: Option<u8>) -> (result: Result<
        FuzzyDate,
        ParseError,
    >)
        ensures
            date_result(result) == columns_date(year, month, day),
            result matches Ok(date) ==> date.well_formed(),
    {
        broadcast use {Year::lemma_view_of, Month::lemma_view_of, Day::lemma_view_of};

        match (month, day) {
            (Some(m), Some(d)) => {
                let year_checked = Self::validate_and_convert_year(year)?;
                let month_checked = Self::validate_and_convert_month(m)?;
                let day_checked = Self::validate_and_convert_day(year, m, d)?;
                Ok(FuzzyDate::Day { year: year_checked, month: month_checked, day: day_checked })
            },
            (Some(m), None) => {
                let year_checked = Self::validate_and_convert_year(year)?;
                let month_checked = Self::validate_and_convert_month(m)?;
                Ok(FuzzyDate::Month { year: year_checked, month: month_checked })
            },
            (None, None) => {
                let year_checked = Self::validate_and_convert_year(year)?;
                Ok(FuzzyDate::Year { year: year_checked })
            },
            (None, Some(d)) => {
                let mut detail = "Cannot have day ".to_owned();
                push_decimal(&mut detail, d as u64);
                detail.append(" without month");
                Err(ParseError::InvalidFormat(detail))
            },
        }
    }

    /// Validates a year's number.
    pub fn validate_and_convert_year(year: u16) -> (result: Result<Year, ParseError>)
        ensures
            result == Year::checked(year),
    {
        Year::new(year)
    }

    /// Validates a month's number.
    pub fn validate_and_convert_month(month: u8) -> (result: Result<Month, ParseError>)
        ensures
            result == Month::checked(month),
    {
        Month::new(month)
    }

    /// Validates a day's number against the month `month` of `year`.
    pub fn validate_and_convert_day(year: u16, month: u8, day: u8) -> (result: Result<
        Day,
        ParseError,
    >)
        requires
            1 <= month <= 12,
        ensures
            result == Day::checked(day, year, month),
    {
        Day::new(day, year, month)
    }

    /// The earliest concrete date that the value may stand for.
    pub fn lower_bound(&self) -> (bound: (u16, u8, u8))
        ensures
            triple(bound) == self.lower(),
    {
        match *self {
            FuzzyDate::Day { year, month, day } => (year.get(), month.get(), day.get()),
            FuzzyDate::Month { year, month } => (year.get(), month.get(), MIN_DAY),
            FuzzyDate::Year { year } => (year.get(), JANUARY, MIN_DAY),
        }
    }

    /// The latest concrete date that the value may stand for.
    pub fn upper_bound_inclusive(&self) -> (bound: (u16, u8, u8))
        ensures
            triple(bound) == self.upper(),
    {
        match *self {
            FuzzyDate::Day { year, month, day } => (year.get(), month.get(), day.get()),
            FuzzyDate::Month { year, month } => (
                year.get(),
                month.get(),
                days_in_month(year.get(), month.get()),
            ),
            FuzzyDate::Year { year } => (year.get(), DECEMBER, 31),
        }
    }

    /// The concrete date right after the latest one that the value may stand
    /// for; none where that would be after the year 9999.
    pub fn upper_bound_exclusive(&self) -> (bound: Option<(u16, u8, u8)>)
        ensures
            optional_triple(bound) == day_after(self.upper().0, self.upper().1, self.upper().2),
    {
        match *self {
            FuzzyDate::Day { year, month, day } => next_day(year.get(), month.get(), day.get()),
            FuzzyDate::Month { year, month } => {
                match next_month(year.get(), month.get()) {
                    Some((next_year, next_month)) => Some((next_year, next_month, MIN_DAY)),
                    None => None,
                }
            },
            FuzzyDate::Year { year } => {
                let y: u16 = year.get();
                if y >= MAX_YEAR {
                    None
                } else {
                    Some((y + 1, JANUARY, MIN_DAY))
                }
            },
        }
    }

    /// The precision's rank: 0 for a year, 1 for a month, 2 for a day.
    pub fn precision_rank(&self) -> (rank: u8)
        ensures
            rank == self.rank(),
    {
        match *self {
            FuzzyDate::Year { .. } => 0,
            FuzzyDate::Month { .. } => 1,
            FuzzyDate::Day { .. } => 2,
        }
    }
}

impl TryFrom<(u16, Option<u8>, Option<u8>)> for FuzzyDate {
    type Error = ParseError;

    /// Builds a date from columns, as [`FuzzyDate::from_columns`] does.
    fn try_from(columns: (u16, Option<u8>, Option<u8>)) -> (result: Result<FuzzyDate, ParseError>)
        ensures
            date_result(result) == columns_date(columns.0, columns.1, columns.2),
            result matches Ok(date) ==> date.well_formed(),
    {
        FuzzyDate::from_columns(columns.0, columns.1, columns.2)
    }
}

/// The trait's own specification compares errors as they are, text and
/// all, where the contract of `try_from` speaks of the model of the error:
/// so the conversion is specified on `try_from` itself and not through
/// `try_from_spec`.
impl vstd::std_specs::convert::TryFromSpecImpl<(u16, Option<u8>, Option<u8>)> for FuzzyDate {
    open spec fn obeys_try_from_spec() -> bool {
        false
    }

    open spec fn try_from_spec(columns: (u16, Option<u8>, Option<u8>)) -> Result<
        FuzzyDate,
        ParseError,
    > {
        arbitrary()
    }
}

/// The month after `month` of `year`; none after December 9999.
pub fn next_month(year: u16, month: u8) -> (next: Option<(u16, u8)>)
    requires
        1 <= month <= 12,
    ensures
        match next {
            Some(n) => month_after(year as int, month as int) == Some((n.0 as int, n.1 as int)),
            None => month_after(year as int, month as int).is_none(),
        },
{
    if month == DECEMBER {
        if year >= MAX_YEAR {
            None
        } else {
            Some((year + 1, JANUARY))
        }
    } else {
        Some((year, month + 1))
    }
}

/// The day after `(year, month, day)`; none after the last day of 9999.
pub fn next_day(year: u16, month: u8, day: u8) -> (next: Option<(u16, u8, u8)>)
    requires
        1 <= month <= 12,
    ensures
        optional_triple(next) == day_after(year as int, month as int, day as int),
{
    let max: u8 = days_in_month(year, month);
    if day < max {
        Some((year, month, day + 1))
    } else {
        match next_month(year, month) {
            Some((next_year, next_month)) => Some((next_year, next_month, MIN_DAY)),
            None => None,
        }
    }
}

/// The bounds of a well-formed date are days of the calendar, the lower one
/// not later than the upper one.
pub proof fn lemma_bounds_in_calendar(date: FuzzyDate)
    requires
        date.well_formed(),
    ensures
        calendar_date(date.lower().0, date.lower().1, date.lower().2),
        calendar_date(date.upper().0, date.upper().1, date.upper().2),
        not_later(date.lower(), date.upper()),
{
}

/// The day after a day of the calendar is the next day of the calendar: a
/// later one, with none between the two. Only the last day of 9999 has none
/// after it.
pub proof fn lemma_day_after_is_next(year: int, month: int, day: int)
    requires
        calendar_date(year, month, day),
    ensures
        day_after(year, month, day) is None <==> (year == 9999 && month == 12 && day == 31),
        day_after(year, month, day) matches Some(next) ==> {
            &&& calendar_date(next.0, next.1, next.2)
            &&& earlier((year, month, day), next)
            &&& forall|y: int, m: int, d: int| #[trigger]
                calendar_date(y, m, d) ==> !(earlier((year, month, day), (y, m, d)) && earlier(
                    (y, m, d),
                    next,
                ))
        },
{
}

/// A well-formed date has no exclusive upper bound exactly where its latest
/// day is the last day of 9999.
pub proof fn lemma_exclusive_bound_absent(date: FuzzyDate)
    requires
        date.well_formed(),
    ensures
        day_after(date.upper().0, date.upper().1, date.upper().2) is None <==> date.upper() == (
            9999int,
            12int,
            31int,
        ),
{
    lemma_bounds_in_calendar(date);
    lemma_day_after_is_next(date.upper().0, date.upper().1, date.upper().2);
}

} // verus!
