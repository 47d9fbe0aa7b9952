//! The limits of the calendar and the separators of the text forms.

use vstd::prelude::*;

verus! {

/// Maximum valid year (inclusive).
pub const MAX_YEAR: u16 = 9999;

/// Maximum valid month (December).
pub const MAX_MONTH: u8 = 12;

/// First day of a month, used for lower bounds.
pub const MIN_DAY: u8 = 1;

/// Month number of January.
pub const JANUARY: u8 = 1;

/// Month number of February.
pub const FEBRUARY: u8 = 2;

/// Month number of December.
pub const DECEMBER: u8 = 12;

/// Length of February in a leap year.
pub const FEBRUARY_DAYS_LEAP: u8 = 29;

/// Days of each month of a year that is no leap year, by the month's number
/// (the entry at 0 stands for no month).
pub const DAYS_IN_MONTH: [u8; 13] = [0, 31, 28, 31, 30, 31, 30, 31, 31, 30, 31, 30, 31];

/// Every fourth year is a leap year,
pub(crate) const LEAP_YEAR_CYCLE: u16 = 4;

/// but for the years that end a century,
pub(crate) const CENTURY_CYCLE: u16 = 100;

/// of which every fourth is one again.
pub(crate) const GREGORIAN_CYCLE: u16 = 400;

/// Separator of the components of a year-first date.
pub const DATE_SEPARATOR: char = '-';

/// Separator of the two endpoints of a range.
pub const RANGE_SEPARATOR: char = '/';

/// Separator of the components of a month-first date.
pub const MONTH_FIRST_SEPARATOR: char = '/';

} // verus!
