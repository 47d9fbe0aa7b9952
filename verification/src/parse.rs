//! The text grammar of dates: the year-first dialect with hyphens, the
//! month-first dialect with slashes, and the bare year.

use crate::date::{columns_date, date_result, FuzzyDate};
use crate::error::{ParseError, ParseErrorView};
use crate::text::{
    chars_of, contains_char, decimal, parse_number, parse_unsigned, push_decimal, split,
    split_bounds, trim, trim_bounds,
};
use std::str::FromStr;
use vstd::prelude::*;
use vstd::string::*;

verus! {

/// The message of the error for a text with both separators.
pub open spec fn mixed_delimiters_detail() -> Seq<char> {
    "Mixed delimiters (- and /)"@
}

/// The message of the error for a year-first text with `found` hyphens,
/// more than two.
pub open spec fn too_many_hyphens_detail(found: nat) -> Seq<char> {
    "Too many - separators: expected 0-2, found "@ + decimal(found)
}

/// The message of the error for a month-first text with `found` slashes,
/// more than two.
pub open spec fn too_many_slashes_detail(found: nat) -> Seq<char> {
    "Too many / separators: expected 1-2, found "@ + decimal(found)
}

/// The fields of `s` between occurrences of `sep`, each trimmed.
pub open spec fn trimmed_fields(s: Seq<char>, sep: char) -> Seq<Seq<char>> {
    split(s, sep).map_values(|field: Seq<char>| trim(field))
}

/// The number at most `max` that `field` writes, or the format error that
/// carries the field.
pub open spec fn field_number(field: Seq<char>, max: nat) -> Result<nat, ParseErrorView> {
    match parse_unsigned(field, max) {
        Some(n) => Ok(n),
        None => Err(ParseErrorView::InvalidFormat(field)),
    }
}

/// The date that a lone year field stands for.
pub open spec fn year_text_date(year: Seq<char>) -> Result<FuzzyDate, ParseErrorView> {
    match field_number(year, 0xFFFF) {
        Err(e) => Err(e),
        Ok(y) => columns_date(y as u16, None, None),
    }
}

/// The date that the fields of `YYYY-MM` stand for.
pub open spec fn iso_month_date(year: Seq<char>, month: Seq<char>) -> Result<
    FuzzyDate,
    ParseErrorView,
> {
    match field_number(year, 0xFFFF) {
        Err(e) => Err(e),
        Ok(y) => match field_number(month, 0xFF) {
            Err(e) => Err(e),
            Ok(m) => columns_date(y as u16, Some(m as u8), None),
        },
    }
}

/// The date that the fields of `YYYY-MM-DD` stand for.
pub open spec fn iso_day_date(year: Seq<char>, month: Seq<char>, day: Seq<char>) -> Result<
    FuzzyDate,
    ParseErrorView,
> {
    match field_number(year, 0xFFFF) {
        Err(e) => Err(e),
        Ok(y) => match field_number(month, 0xFF) {
            Err(e) => Err(e),
            Ok(m) => match field_number(day, 0xFF) {
                Err(e) => Err(e),
                Ok(d) => columns_date(y as u16, Some(m as u8), Some(d as u8)),
            },
        },
    }
}

/// The date that the fields of `MM/YYYY` stand for.
pub open spec fn month_first_month_date(month: Seq<char>, year: Seq<char>) -> Result<
    FuzzyDate,
    ParseErrorView,
> {
    match field_number(month, 0xFF) {
        Err(e) => Err(e),
        Ok(m) => match field_number(year, 0xFFFF) {
            Err(e) => Err(e),
            Ok(y) => columns_date(y as u16, Some(m as u8), None),
        },
    }
}

/// The date that the fields of `MM/DD/YYYY` stand for.
pub open spec fn month_first_day_date(
    month: Seq<char>,
    day: Seq<char>,
    year: Seq<char>,
) -> Result<FuzzyDate, ParseErrorView> {
    match field_number(month, 0xFF) {
        Err(e) => Err(e),
        Ok(m) => match field_number(day, 0xFF) {
            Err(e) => Err(e),
            Ok(d) => match field_number(year, 0xFFFF) {
                Err(e) => Err(e),
                Ok(y) => columns_date(y as u16, Some(m as u8), Some(d as u8)),
            },
        },
    }
}

/// The date that the trimmed fields of a year-first text stand for: one to
/// three fields, the year first.
pub open spec fn iso_date(fields: Seq<Seq<char>>) -> Result<FuzzyDate, ParseErrorView> {
    if fields.len() == 1 {
        year_text_date(fields[0])
    } else if fields.len() == 2 {
        iso_month_date(fields[0], fields[1])
    } else if fields.len() == 3 {
        iso_day_date(fields[0], fields[1], fields[2])
    } else {
        Err(ParseErrorView::InvalidFormat(too_many_hyphens_detail((fields.len() - 1) as nat)))
    }
}

/// The date that the trimmed fields of a month-first text stand for: two or
/// three fields, the year last.
pub open spec fn month_first_date(fields: Seq<Seq<char>>) -> Result<FuzzyDate, ParseErrorView> {
    if fields.len() == 2 {
        month_first_month_date(fields[0], fields[1])
    } else if fields.len() == 3 {
        month_first_day_date(fields[0], fields[1], fields[2])
    } else {
        Err(ParseErrorView::InvalidFormat(too_many_slashes_detail((fields.len() - 1) as nat)))
    }
}

/// The date that `text` stands for, or why it stands for none.
///
/// The text is trimmed. Empty, it is refused. With a hyphen and a slash it
/// is refused. With hyphens it is year-first, with slashes month-first, with
/// neither a bare year. Each field is trimmed and read as a number; the
/// first in the text that is none gives the format error. Then the year, the
/// month and the day are checked, in this order.
pub open spec fn parse_date(text: Seq<char>) -> Result<FuzzyDate, ParseErrorView> {
    let t = trim(text);
    if t.len() == 0 {
        Err(ParseErrorView::EmptyInput)
    } else if t.contains('-') && t.contains('/') {
        Err(ParseErrorView::InvalidFormat(mixed_delimiters_detail()))
    } else if t.contains('-') {
        iso_date(trimmed_fields(t, '-'))
    } else if t.contains('/') {
        month_first_date(trimmed_fields(t, '/'))
    } else {
        year_text_date(t)
    }
}

impl FuzzyDate {
    /// Reads `chars[lo..hi]` as a number of 16 bits.
    fn parse_u16(text: &str, chars: &Vec<char>, lo: usize, hi: usize) -> (result: Result<
        u16,
        ParseError,
    >)
        requires
            chars@ == text@,
            lo <= hi <= chars.len(),
        ensures
            match result {
                Ok(n) => field_number(chars@.subrange(lo as int, hi as int), 0xFFFF) == Ok::<
                    nat,
                    ParseErrorView,
                >(n as nat),
                Err(e) => field_number(chars@.subrange(lo as int, hi as int), 0xFFFF) == Err::<
                    nat,
                    ParseErrorView,
                >(e@),
            },
    {
        match parse_number(chars, lo, hi, 0xFFFF) {
            Some(n) => Ok(n as u16),
            None => Err(ParseError::InvalidFormat(text.substring_char(lo, hi).to_owned())),
        }
    }

    /// Reads `chars[lo..hi]` as a number of 8 bits.
    fn parse_u8(text: &str, chars: &Vec<char>, lo: usize, hi: usize) -> (result: Result<
        u8,
        ParseError,
    >)
        requires
            chars@ == text@,
            lo <= hi <= chars.len(),
        ensures
            match result {
                Ok(n) => field_number(chars@.subrange(lo as int, hi as int), 0xFF) == Ok::<
                    nat,
                    ParseErrorView,
                >(n as nat),
                Err(e) => field_number(chars@.subrange(lo as int, hi as int), 0xFF) == Err::<
                    nat,
                    ParseErrorView,
                >(e@),
            },
    {
        match parse_number(chars, lo, hi, 0xFF) {
            Some(n) => Ok(n as u8),
            None => Err(ParseError::InvalidFormat(text.substring_char(lo, hi).to_owned())),
        }
    }

    /// Reads a lone year field as a date.
    fn parse_year_only(text: &str, chars: &Vec<char>, year: (usize, usize)) -> (result: Result<
        FuzzyDate,
        ParseError,
    >)
        requires
            chars@ == text@,
            year.0 <= year.1 <= chars.len(),
        ensures
            date_result(result) == year_text_date(chars@.subrange(year.0 as int, year.1 as int)),
            result matches Ok(date) ==> date.well_formed(),
    {
        let y = FuzzyDate::parse_u16(text, chars, year.0, year.1)?;
        FuzzyDate::from_columns(y, None, None)
    }

    /// Reads the fields of `YYYY-MM` as a date.
    fn parse_iso_month_year(
        text: &str,
        chars: &Vec<char>,
        year: (usize, usize),
        month: (usize, usize),
    ) -> (result: Result<FuzzyDate, ParseError>)
        requires
            chars@ == text@,
            year.0 <= year.1 <= chars.len(),
            month.0 <= month.1 <= chars.len(),
        ensures
            date_result(result) == iso_month_date(
                chars@.subrange(year.0 as int, year.1 as int),
                chars@.subrange(month.0 as int, month.1 as int),
            ),
            result matches Ok(date) ==> date.well_formed(),
    {
        let y = FuzzyDate::parse_u16(text, chars, year.0, year.1)?;
        let m = FuzzyDate::parse_u8(text, chars, month.0, month.1)?;
        FuzzyDate::from_columns(y, Some(m), None)
    }

    /// Reads the fields of `YYYY-MM-DD` as a date.
    fn parse_iso_full_date(
        text: &str,
        chars: &Vec<char>,
        year: (usize, usize),
        month: (usize, usize),
        day: (usize, usize),
    ) -> (result: Result<FuzzyDate, ParseError>)
        requires
            chars@ == text@,
            year.0 <= year.1 <= chars.len(),
            month.0 <= month.1 <= chars.len(),
            day.0 <= day.1 <= chars.len(),
        ensures
            date_result(result) == iso_day_date(
                chars@.subrange(year.0 as int, year.1 as int),
                chars@.subrange(month.0 as int, month.1 as int),
                chars@.subrange(day.0 as int, day.1 as int),
            ),
            result matches Ok(date) ==> date.well_formed(),
    {
        let y = FuzzyDate::parse_u16(text, chars, year.0, year.1)?;
        let m = FuzzyDate::parse_u8(text, chars, month.0, month.1)?;
        let d = FuzzyDate::parse_u8(text, chars, day.0, day.1)?;
        FuzzyDate::from_columns(y, Some(m), Some(d))
    }

    /// Reads the fields of `MM/YYYY` as a date.
    fn parse_month_year(
        text: &str,
        chars: &Vec<char>,
        month: (usize, usize),
        year: (usize, usize),
    ) -> (result: Result<FuzzyDate, ParseError>)
        requires
            chars@ == text@,
            year.0 <= year.1 <= chars.len(),
            month.0 <= month.1 <= chars.len(),
        ensures
            date_result(result) == month_first_month_date(
                chars@.subrange(month.0 as int, month.1 as int),
                chars@.subrange(year.0 as int, year.1 as int),
            ),
            result matches Ok(date) ==> date.well_formed(),
    {
        let m = FuzzyDate::parse_u8(text, chars, month.0, month.1)?;
        let y = FuzzyDate::parse_u16(text, chars, year.0, year.1)?;
        FuzzyDate::from_columns(y, Some(m), None)
    }

    /// Reads the fields of `MM/DD/YYYY` as a date.
    fn parse_full_date(
        text: &str,
        chars: &Vec<char>,
        month: (usize, usize),
        day: (usize, usize),
        year: (usize, usize),
    ) -> (result: Result<FuzzyDate, ParseError>)
        requires
            chars@ == text@,
            year.0 <= year.1 <= chars.len(),
            month.0 <= month.1 <= chars.len(),
            day.0 <= day.1 <= chars.len(),
        ensures
            date_result(result) == month_first_day_date(
                chars@.subrange(month.0 as int, month.1 as int),
                chars@.subrange(day.0 as int, day.1 as int),
                chars@.subrange(year.0 as int, year.1 as int),
            ),
            result matches Ok(date) ==> date.well_formed(),
    {
        let m = FuzzyDate::parse_u8(text, chars, month.0, month.1)?;
        let d = FuzzyDate::parse_u8(text, chars, day.0, day.1)?;
        let y = FuzzyDate::parse_u16(text, chars, year.0, year.1)?;
        FuzzyDate::from_columns(y, Some(m), Some(d))
    }
}

/// The bounds of field `k` of `fields`, trimmed.
fn trimmed_field(
    chars: &Vec<char>,
    fields: &Vec<(usize, usize)>,
    k: usize,
    Ghost(s): Ghost<Seq<char>>,
    Ghost(sep): Ghost<char>,
) -> (field: (usize, usize))
    requires
        k < fields.len(),
        fields@.len() == split(s, sep).len(),
        forall|j: int|
            0 <= j < fields@.len() ==> (#[trigger] fields@[j]).0 <= fields@[j].1 <= chars.len(),
        forall|j: int|
            0 <= j < fields@.len() ==> chars@.subrange(
                (#[trigger] fields@[j]).0 as int,
                fields@[j].1 as int,
            ) == split(s, sep)[j],
    ensures
        field.0 <= field.1 <= chars.len(),
        chars@.subrange(field.0 as int, field.1 as int) == trimmed_fields(s, sep)[k as int],
{
    let whole = fields[k];
    trim_bounds(chars, whole.0, whole.1)
}

impl FuzzyDate {
    /// Reads `chars[lo..hi]`, the characters of a part of `text`, as a date.
    pub(crate) fn parse_span(text: &str, chars: &Vec<char>, lo: usize, hi: usize) -> (result: Result<
        FuzzyDate,
        ParseError,
    >)
        requires
            chars@ == text@,
            lo <= hi <= chars.len(),
        ensures
            date_result(result) == parse_date(chars@.subrange(lo as int, hi as int)),
            result matches Ok(date) ==> date.well_formed(),
    {
        let (a, b) = trim_bounds(chars, lo, hi);
        let ghost t = chars@.subrange(a as int, b as int);
        if a == b {
            return Err(ParseError::EmptyInput);
        }
        let has_hyphen = contains_char(chars, a, b, '-');
        let has_slash = contains_char(chars, a, b, '/');
        if has_hyphen && has_slash {
            return Err(ParseError::InvalidFormat("Mixed delimiters (- and /)".to_owned()));
        }
        if has_hyphen {
            let fields = split_bounds(chars, a, b, '-');
            let n: usize = fields.len();
            if n == 1 {
                let year = trimmed_field(chars, &fields, 0, Ghost(t), Ghost('-'));
                FuzzyDate::parse_year_only(text, chars, year)
            } else if n == 2 {
                let year = trimmed_field(chars, &fields, 0, Ghost(t), Ghost('-'));
                let month = trimmed_field(chars, &fields, 1, Ghost(t), Ghost('-'));
                FuzzyDate::parse_iso_month_year(text, chars, year, month)
            } else if n == 3 {
                let year = trimmed_field(chars, &fields, 0, Ghost(t), Ghost('-'));
                let month = trimmed_field(chars, &fields, 1, Ghost(t), Ghost('-'));
                let day = trimmed_field(chars, &fields, 2, Ghost(t), Ghost('-'));
                FuzzyDate::parse_iso_full_date(text, chars, year, month, day)
            } else {
                let mut detail = "Too many - separators: expected 0-2, found ".to_owned();
                push_decimal(&mut detail, (n - 1) as u64);
                Err(ParseError::InvalidFormat(detail))
            }
        } else if has_slash {
            let fields = split_bounds(chars, a, b, '/');
            let n: usize = fields.len();
            if n == 2 {
                let month = trimmed_field(chars, &fields, 0, Ghost(t), Ghost('/'));
                let year = trimmed_field(chars, &fields, 1, Ghost(t), Ghost('/'));
                FuzzyDate::parse_month_year(text, chars, month, year)
            } else if n == 3 {
                let month = trimmed_field(chars, &fields, 0, Ghost(t), Ghost('/'));
                let day = trimmed_field(chars, &fields, 1, Ghost(t), Ghost('/'));
                let year = trimmed_field(chars, &fields, 2, Ghost(t), Ghost('/'));
                FuzzyDate::parse_full_date(text, chars, month, day, year)
            } else {
                let mut detail = "Too many / separators: expected 1-2, found ".to_owned();
                push_decimal(&mut detail, (n - 1) as u64);
                Err(ParseError::InvalidFormat(detail))
            }
        } else {
            FuzzyDate::parse_year_only(text, chars, (a, b))
        }
    }

    /// Reads `text` as a date: see [`parse_date`].
    pub fn parse(text: &str) -> (result: Result<FuzzyDate, ParseError>)
        ensures
            date_result(result) == parse_date(text@),
            result matches Ok(date) ==> date.well_formed(),
    {
        let chars = chars_of(text);
        assert(chars@.subrange(0, chars@.len() as int) =~= text@);
        FuzzyDate::parse_span(text, &chars, 0, chars.len())
    }
}

impl FromStr for FuzzyDate {
    type Err = ParseError;

    /// Reads `text` as a date: see [`parse_date`].
    fn from_str(text: &str) -> (result: Result<FuzzyDate, ParseError>)
        ensures
            date_result(result) == parse_date(text@),
            result matches Ok(date) ==> date.well_formed(),
    {
        FuzzyDate::parse(text)
    }
}

} // verus!
