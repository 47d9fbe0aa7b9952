//! The calendar's arithmetic and the validated parts of a date: year, month
//! and day.

use crate::consts::{
    CENTURY_CYCLE, DAYS_IN_MONTH, FEBRUARY, FEBRUARY_DAYS_LEAP, GREGORIAN_CYCLE, LEAP_YEAR_CYCLE,
    MAX_MONTH, MAX_YEAR, MIN_DAY,
};
use crate::error::ParseError;
use crate::text::{decimal, push_decimal};
use vstd::prelude::*;

verus! {

/// Whether `year` is a leap year of the Gregorian calendar.
pub open spec fn leap_year(year: int) -> bool {
    (year % 4 == 0 && year % 100 != 0) || year % 400 == 0
}

/// Number of days of `month` in `year`, for a month in `1..=12`.
pub open spec fn month_length(year: int, month: int) -> int {
    if month == 2 {
        if leap_year(year) {
            29
        } else {
            28
        }
    } else if month == 4 || month == 6 || month == 9 || month == 11 {
        30
    } else {
        31
    }
}

/// Whether `(year, month, day)` names a day of the calendar between
/// 0001-01-01 and 9999-12-31.
pub open spec fn calendar_date(year: int, month: int, day: int) -> bool {
    &&& 1 <= year <= 9999
    &&& 1 <= month <= 12
    &&& 1 <= day <= month_length(year, month)
}

pub fn is_leap_year(year: u16) -> (leap: bool)
    ensures
        leap == leap_year(year as int),
{
    (year % LEAP_YEAR_CYCLE == 0 && year % CENTURY_CYCLE != 0) || (year % GREGORIAN_CYCLE == 0)
}

pub fn days_in_month(year: u16, month: u8) -> (days: u8)
    requires
        1 <= month <= 12,
    ensures
        days == month_length(year as int, month as int),
        28 <= days <= 31,
        month == 2 ==> (days == 29 <==> leap_year(year as int)),
{
    if month == FEBRUARY && is_leap_year(year) {
        FEBRUARY_DAYS_LEAP
    } else {
        DAYS_IN_MONTH[month as usize]
    }
}

/// A year in `1..=9999`.
#[derive(Debug, Clone, Copy, PartialEq, Eq, Structural, PartialOrd, Ord, Hash)]
pub struct Year(u16);

impl View for Year {
    type V = int;

    closed spec fn view(&self) -> int {
        self.0 as int
    }
}

impl Year {
    #[verifier::type_invariant]
    spec fn in_range(self) -> bool {
        1 <= self.0 <= 9999
    }

    /// The year whose number is `value`: the model of what [`Year::new`]
    /// builds.
    pub closed spec fn of(value: int) -> Year {
        Year(value as u16)
    }

    /// What validating `value` as a year gives.
    pub open spec fn checked(value: u16) -> Result<Year, ParseError> {
        if 1 <= value <= 9999 {
            Ok(Year::of(value as int))
        } else {
            Err(ParseError::InvalidYear(value))
        }
    }

    /// A year is determined by its number.
    pub broadcast proof fn lemma_of_view(self)
        ensures
            #[trigger] Year::of(self@) == self,
            0 <= self@ <= u16::MAX,
    {
    }

    /// The number of `Year::of(value)` is `value`.
    pub broadcast proof fn lemma_view_of(value: int)
        requires
            0 <= value <= u16::MAX,
        ensures
            #[trigger] Year::of(value)@ == value,
    {
    }

    /// Validates `value` as a year: `InvalidYear` unless it is in `1..=9999`.
    pub fn new(value: u16) -> (result: Result<Year, ParseError>)
        ensures
            result == Year::checked(value),
            result is Ok <==> 1 <= value <= 9999,
            result matches Ok(year) ==> year@ == value,
    {
        if value == 0 || value > MAX_YEAR {
            return Err(ParseError::InvalidYear(value));
        }
        Ok(Year(value))
    }

    /// The year's number.
    pub fn get(self) -> (value: u16)
        ensures
            value == self@,
            1 <= value <= 9999,
    {
        proof {
            use_type_invariant(self);
        }
        self.0
    }

    /// The year's number in base ten, without padding.
    pub fn to_string(&self) -> (text: String)
        ensures
            text@ == decimal(self@ as nat),
    {
        let mut text = String::new();
        push_decimal(&mut text, self.get() as u64);
        assert(text@ =~= decimal(self@ as nat));
        text
    }
}

impl TryFrom<u16> for Year {
    type Error = ParseError;

    fn try_from(value: u16) -> (result: Result<Year, ParseError>) {
        Year::new(value)
    }
}

impl vstd::std_specs::convert::TryFromSpecImpl<u16> for Year {
    open spec fn obeys_try_from_spec() -> bool {
        true
    }

    open spec fn try_from_spec(value: u16) -> Result<Year, ParseError> {
        Year::checked(value)
    }
}

impl From<Year> for u16 {
    fn from(year: Year) -> (value: u16) {
        year.get()
    }
}

impl vstd::std_specs::convert::FromSpecImpl<Year> for u16 {
    open spec fn obeys_from_spec() -> bool {
        true
    }

    open spec fn from_spec(year: Year) -> u16 {
        year@ as u16
    }
}

/// A month in `1..=12`.
#[derive(Debug, Clone, Copy, PartialEq, Eq, Structural, PartialOrd, Ord, Hash)]
pub struct Month(u8);

impl View for Month {
    type V = int;

    closed spec fn view(&self) -> int {
        self.0 as int
    }
}

impl Month {
    #[verifier::type_invariant]
    spec fn in_range(self) -> bool {
        1 <= self.0 <= 12
    }

    /// The month whose number is `value`: the model of what [`Month::new`]
    /// builds.
    pub closed spec fn of(value: int) -> Month {
        Month(value as u8)
    }

    /// What validating `value` as a month gives.
    pub open spec fn checked(value: u8) -> Result<Month, ParseError> {
        if 1 <= value <= 12 {
            Ok(Month::of(value as int))
        } else {
            Err(ParseError::InvalidMonth(value))
        }
    }

    /// A month is determined by its number.
    pub broadcast proof fn lemma_of_view(self)
        ensures
            #[trigger] Month::of(self@) == self,
            0 <= self@ <= u8::MAX,
    {
    }

    /// The number of `Month::of(value)` is `value`.
    pub broadcast proof fn lemma_view_of(value: int)
        requires
            0 <= value <= u8::MAX,
        ensures
            #[trigger] Month::of(value)@ == value,
    {
    }

    /// Validates `value` as a month: `InvalidMonth` unless it is in `1..=12`.
    pub fn new(value: u8) -> (result: Result<Month, ParseError>)
        ensures
            result == Month::checked(value),
            result is Ok <==> 1 <= value <= 12,
            result matches Ok(month) ==> month@ == value,
    {
        if value == 0 || value > MAX_MONTH {
            return Err(ParseError::InvalidMonth(value));
        }
        Ok(Month(value))
    }

    /// The month's number.
    pub fn get(self) -> (value: u8)
        ensures
            value == self@,
            1 <= value <= 12,
    {
        proof {
            use_type_invariant(self);
        }
        self.0
    }

    /// The month's number in base ten, without padding.
    pub fn to_string(&self) -> (text: String)
        ensures
            text@ == decimal(self@ as nat),
    {
        let mut text = String::new();
        push_decimal(&mut text, self.get() as u64);
        assert(text@ =~= decimal(self@ as nat));
        text
    }
}

impl TryFrom<u8> for Month {
    type Error = ParseError;

    fn try_from(value: u8) -> (result: Result<Month, ParseError>) {
        Month::new(value)
    }
}

impl vstd::std_specs::convert::TryFromSpecImpl<u8> for Month {
    open spec fn obeys_try_from_spec() -> bool {
        true
    }

    open spec fn try_from_spec(value: u8) -> Result<Month, ParseError> {
        Month::checked(value)
    }
}

impl From<Month> for u8 {
    fn from(month: Month) -> (value: u8) {
        month.get()
    }
}

impl vstd::std_specs::convert::FromSpecImpl<Month> for u8 {
    open spec fn obeys_from_spec() -> bool {
        true
    }

    open spec fn from_spec(month: Month) -> u8 {
        month@ as u8
    }
}

/// A day of a month: never zero. Built by [`Day::new`] it is a day of the
/// month it was checked against; built from a bare number it is only known
/// not to be zero.
#[derive(Debug, Clone, Copy, PartialEq, Eq, Structural, PartialOrd, Ord, Hash)]
pub struct Day(u8);

impl View for Day {
    type V = int;

    closed spec fn view(&self) -> int {
        self.0 as int
    }
}

impl Day {
    #[verifier::type_invariant]
    spec fn in_range(self) -> bool {
        1 <= self.0
    }

    /// The day whose number is `value`: the model of what [`Day::new`]
    /// builds.
    pub closed spec fn of(value: int) -> Day {
        Day(value as u8)
    }

    /// What validating `value` as a day of `month` in `year` gives.
    pub open spec fn checked(value: u8, year: u16, month: u8) -> Result<Day, ParseError> {
        if 1 <= value <= month_length(year as int, month as int) {
            Ok(Day::of(value as int))
        } else {
            Err(ParseError::InvalidDay { month, day: value, year })
        }
    }

    /// What validating `value` as a day without a month to check it against
    /// gives: only zero is refused, and the error names month 0 of year 0.
    pub open spec fn checked_nonzero(value: u8) -> Result<Day, ParseError> {
        if 1 <= value {
            Ok(Day::of(value as int))
        } else {
            Err(ParseError::InvalidDay { month: 0, day: value, year: 0 })
        }
    }

    /// A day is determined by its number.
    pub broadcast proof fn lemma_of_view(self)
        ensures
            #[trigger] Day::of(self@) == self,
            0 <= self@ <= u8::MAX,
    {
    }

    /// The number of `Day::of(value)` is `value`.
    pub broadcast proof fn lemma_view_of(value: int)
        requires
            0 <= value <= u8::MAX,
        ensures
            #[trigger] Day::of(value)@ == value,
    {
    }

    /// Validates `value` as a day of `month` in `year`: `InvalidDay` unless it
    /// is at least 1 and at most the length of that month.
    pub fn new(value: u8, year: u16, month: u8) -> (result: Result<Day, ParseError>)
        requires
            1 <= month <= 12,
        ensures
            result == Day::checked(value, year, month),
            result is Ok <==> 1 <= value <= month_length(year as int, month as int),
            result matches Ok(day) ==> day@ == value,
    {
        if value < MIN_DAY || value > days_in_month(year, month) {
            return Err(ParseError::InvalidDay { month, day: value, year });
        }
        Ok(Day(value))
    }

    /// The day's number.
    pub fn get(self) -> (value: u8)
        ensures
            value == self@,
            1 <= value,
    {
        proof {
            use_type_invariant(self);
        }
        self.0
    }

    /// The day's number in base ten, without padding.
    pub fn to_string(&self) -> (text: String)
        ensures
            text@ == decimal(self@ as nat),
    {
        let mut text = String::new();
        push_decimal(&mut text, self.get() as u64);
        assert(text@ =~= decimal(self@ as nat));
        text
    }
}

impl TryFrom<u8> for Day {
    type Error = ParseError;

    fn try_from(value: u8) -> (result: Result<Day, ParseError>) {
        if value < MIN_DAY {
            return Err(ParseError::InvalidDay { month: 0, day: value, year: 0 });
        }
        Ok(Day(value))
    }
}

impl vstd::std_specs::convert::TryFromSpecImpl<u8> for Day {
    open spec fn obeys_try_from_spec() -> bool {
        true
    }

    open spec fn try_from_spec(value: u8) -> Result<Day, ParseError> {
        Day::checked_nonzero(value)
    }
}

impl From<Day> for u8 {
    fn from(day: Day) -> (value: u8) {
        day.get()
    }
}

impl vstd::std_specs::convert::FromSpecImpl<Day> for u8 {
    open spec fn obeys_from_spec() -> bool {
        true
    }

    open spec fn from_spec(day: Day) -> u8 {
        day@ as u8
    }
}

} // verus!
