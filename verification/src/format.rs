//! The canonical text of dates and the messages of errors.

use crate::date::FuzzyDate;
use crate::error::{ParseError, ParseErrorView};
use crate::text::{decimal, lemma_decimal_len, padded, push_decimal, push_padded};
use vstd::prelude::*;
use vstd::string::*;

verus! {

/// The message of a date error.
pub open spec fn error_text(error: ParseErrorView) -> Seq<char> {
    match error {
        ParseErrorView::InvalidFormat(detail) => "Invalid date format: "@ + detail,
        ParseErrorView::InvalidYear(year) => "Invalid year: "@ + decimal(year as nat)
            + " (must be 1-9999)"@,
        ParseErrorView::InvalidMonth(month) => "Invalid month: "@ + decimal(month as nat)
            + " (must be 1-12)"@,
        ParseErrorView::InvalidDay { month, day, year } => "Invalid day "@ + decimal(day as nat)
            + " for month "@ + decimal(year as nat) + "-"@ + padded(month as nat, 2),
        ParseErrorView::EmptyInput => "Empty date string"@,
    }
}

impl FuzzyDate {
    /// The canonical text of the date: the year in four digits, then the
    /// month and the day in two digits each where the date has them, after a
    /// hyphen each.
    pub open spec fn iso_text(self) -> Seq<char> {
        match self {
            FuzzyDate::Year { year } => padded(year@ as nat, 4),
            FuzzyDate::Month { year, month } => padded(year@ as nat, 4) + seq!['-'] + padded(
                month@ as nat,
                2,
            ),
            FuzzyDate::Day { year, month, day } => padded(year@ as nat, 4) + seq!['-'] + padded(
                month@ as nat,
                2,
            ) + seq!['-'] + padded(day@ as nat, 2),
        }
    }

    /// Appends the canonical text of the date.
    pub fn push_to(&self, out: &mut String)
        ensures
            final(out)@ == old(out)@ + self.iso_text(),
    {
        proof {
            reveal_strlit("-");
        }
        let ghost before = out@;
        push_padded(out, self.year(), 4);
        match self.month() {
            Some(m) => {
                out.append("-");
                push_padded(out, m as u16, 2);
                assert(out@ =~= before + padded(self.year_number() as nat, 4) + seq!['-'] + padded(
                    m as nat,
                    2,
                ));
            },
            None => {},
        }
        match self.day() {
            Some(d) => {
                out.append("-");
                push_padded(out, d as u16, 2);
                assert(out@ =~= before + padded(self.year_number() as nat, 4) + seq!['-'] + padded(
                    self.month_number()->0 as nat,
                    2,
                ) + seq!['-'] + padded(d as nat, 2));
            },
            None => {},
        }
        assert(out@ =~= before + self.iso_text());
    }

    /// The canonical text of the date.
    pub fn to_string(&self) -> (text: String)
        ensures
            text@ == self.iso_text(),
    {
        let mut text = String::new();
        self.push_to(&mut text);
        assert(text@ =~= self.iso_text());
        text
    }
}

impl ParseError {
    /// Appends the message of the error.
    pub fn push_to(&self, out: &mut String)
        ensures
            final(out)@ == old(out)@ + error_text(self@),
    {
        let ghost before = out@;
        match self {
            ParseError::InvalidFormat(detail) => {
                out.append("Invalid date format: ");
                out.append(detail.as_str());
            },
            ParseError::InvalidYear(year) => {
                out.append("Invalid year: ");
                push_decimal(out, *year as u64);
                out.append(" (must be 1-9999)");
            },
            ParseError::InvalidMonth(month) => {
                out.append("Invalid month: ");
                push_decimal(out, *month as u64);
                out.append(" (must be 1-12)");
            },
            ParseError::InvalidDay { month, day, year } => {
                out.append("Invalid day ");
                push_decimal(out, *day as u64);
                out.append(" for month ");
                push_decimal(out, *year as u64);
                out.append("-");
                push_padded(out, *month as u16, 2);
            },
            ParseError::EmptyInput => {
                out.append("Empty date string");
            },
        }
        assert(out@ =~= before + error_text(self@));
    }

    /// The message of the error.
    pub fn to_string(&self) -> (text: String)
        ensures
            text@ == error_text(self@),
    {
        let mut text = String::new();
        self.push_to(&mut text);
        assert(text@ =~= error_text(self@));
        text
    }
}

/// The canonical text of a well-formed date has four characters for the
/// year and three more for each further part: a hyphen and two digits.
pub proof fn lemma_iso_text_length(date: FuzzyDate)
    requires
        date.well_formed(),
    ensures
        date.iso_text().len() == 4 + 3 * date.rank(),
        date.rank() >= 1 ==> date.iso_text()[4] == '-',
        date.rank() >= 2 ==> date.iso_text()[7] == '-',
{
    lemma_decimal_len(date.year_number() as nat);
    if let Some(m) = date.month_number() {
        lemma_decimal_len(m as nat);
    }
    if let Some(d) = date.day_number() {
        lemma_decimal_len(d as nat);
    }
}

} // verus!
