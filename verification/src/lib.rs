//! Calendar dates of partial precision: a year, a year and month, or a full
//! day, with a total order, concrete bounds, a text grammar and ranges.

pub mod consts;
pub mod date;
pub mod error;
pub mod format;
pub mod order;
pub mod parse;
pub mod range;
pub mod roundtrip;
pub mod text;
pub mod types;

pub use consts::{
    DATE_SEPARATOR, DAYS_IN_MONTH, DECEMBER, FEBRUARY, FEBRUARY_DAYS_LEAP, JANUARY, MAX_MONTH, MAX_YEAR, MIN_DAY,
    MONTH_FIRST_SEPARATOR, RANGE_SEPARATOR,
};
pub use date::FuzzyDate;
pub use error::{ParseError, ParseErrorView};
pub use range::{FuzzyDateRange, RangeError, RangeErrorView};
pub use types::{days_in_month, is_leap_year, Day, Month, Year};
