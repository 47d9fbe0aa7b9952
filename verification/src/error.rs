//! Why a date could not be built.

use vstd::prelude::*;

verus! {

/// Why a date could not be built from text or from raw numbers.
#[derive(Debug, Clone, PartialEq, Eq)]
pub enum ParseError {
    /// The text does not follow the grammar; the payload says how.
    InvalidFormat(String),
    /// The year is outside `1..=9999`.
    InvalidYear(u16),
    /// The month is outside `1..=12`.
    InvalidMonth(u8),
    /// The day is zero or beyond the length of the month.
    InvalidDay { month: u8, day: u8, year: u16 },
    /// The text is empty once trimmed.
    EmptyInput,
}

/// Mathematical model of a [`ParseError`]: the text payload as a sequence of
/// characters, the numbers as they are.
pub ghost enum ParseErrorView {
    InvalidFormat(Seq<char>),
    InvalidYear(u16),
    InvalidMonth(u8),
    InvalidDay { month: u8, day: u8, year: u16 },
    EmptyInput,
}

impl View for ParseError {
    type V = ParseErrorView;

    open spec fn view(&self) -> ParseErrorView {
        match *self {
            ParseError::InvalidFormat(s) => ParseErrorView::InvalidFormat(s@),
            ParseError::InvalidYear(y) => ParseErrorView::InvalidYear(y),
            ParseError::InvalidMonth(m) => ParseErrorView::InvalidMonth(m),
            ParseError::InvalidDay { month, day, year } => ParseErrorView::InvalidDay {
                month,
                day,
                year,
            },
            ParseError::EmptyInput => ParseErrorView::EmptyInput,
        }
    }
}

} // verus!
