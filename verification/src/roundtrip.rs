//! What holds between the canonical text of a date and the grammar: the
//! text of a date reads back as that date, and the text of a range as that
//! range.

use crate::date::{columns_date, FuzzyDate};
use crate::error::ParseErrorView;
use crate::parse::{iso_day_date, iso_month_date, parse_date, trimmed_fields, year_text_date};
use crate::range::{parse_range, range_text, RangeErrorView};
use crate::text::{
    is_digit, is_space, lemma_digit_is_plain, lemma_digits_read_back, lemma_padded_digits,
    lemma_split_first, lemma_split_one, padded, split, trim,
};
use crate::types::{Day, Month, Year};
use vstd::prelude::*;

verus! {

/// The columns of a well-formed date.
pub open spec fn date_columns(date: FuzzyDate) -> (u16, Option<u8>, Option<u8>) {
    (
        date.year_number() as u16,
        match date.month_number() {
            Some(m) => Some(m as u8),
            None => None,
        },
        match date.day_number() {
            Some(d) => Some(d as u8),
            None => None,
        },
    )
}

/// A date built from columns is well formed and has the numbers that the
/// columns gave.
pub proof fn lemma_columns_date_well_formed(year: u16, month: Option<u8>, day: Option<u8>)
    ensures
        columns_date(year, month, day) matches Ok(date) ==> date.well_formed() && date_columns(date)
            == (year, month, day),
{
    broadcast use {Year::lemma_view_of, Month::lemma_view_of, Day::lemma_view_of};

}

/// The columns of a well-formed date build that date again.
pub proof fn lemma_columns_round_trip(date: FuzzyDate)
    requires
        date.well_formed(),
    ensures
        columns_date(date_columns(date).0, date_columns(date).1, date_columns(date).2) == Ok::<
            FuzzyDate,
            ParseErrorView,
        >(date),
{
    broadcast use {Year::lemma_of_view, Month::lemma_of_view, Day::lemma_of_view};

}

/// A text that begins and ends with something else than white space is its
/// own trimmed form.
pub proof fn lemma_trim_plain(s: Seq<char>)
    requires
        s.len() > 0,
        !is_space(s[0]),
        !is_space(s.last()),
    ensures
        trim(s) == s,
{
}

/// Whether `s` holds digits and hyphens only, with a digit first and last.
pub open spec fn digits_and_hyphens(s: Seq<char>) -> bool {
    &&& s.len() > 0
    &&& is_digit(s[0])
    &&& is_digit(s.last())
    &&& forall|i: int| 0 <= i < s.len() ==> is_digit(#[trigger] s[i]) || s[i] == '-'
}

/// The canonical text of a date holds digits and hyphens only, with a digit
/// first and last.
pub proof fn lemma_iso_text_shape(date: FuzzyDate)
    ensures
        digits_and_hyphens(date.iso_text()),
{
    let y = padded(date.year_number() as nat, 4);
    lemma_padded_digits(date.year_number() as nat, 4);
    match date {
        FuzzyDate::Year { year } => {},
        FuzzyDate::Month { year, month } => {
            let m = padded(month@ as nat, 2);
            lemma_padded_digits(month@ as nat, 2);
            let text = y + seq!['-'] + m;
            assert(text[0] == y[0]);
            assert(text.last() == m.last());
            assert forall|i: int| 0 <= i < text.len() implies is_digit(#[trigger] text[i])
                || text[i] == '-' by {
                if i < y.len() {
                    assert(text[i] == y[i]);
                } else if i > y.len() {
                    assert(text[i] == m[i - y.len() - 1]);
                }
            }
        },
        FuzzyDate::Day { year, month, day } => {
            let m = padded(month@ as nat, 2);
            let d = padded(day@ as nat, 2);
            lemma_padded_digits(month@ as nat, 2);
            lemma_padded_digits(day@ as nat, 2);
            let text = y + seq!['-'] + m + seq!['-'] + d;
            assert(text[0] == y[0]);
            assert(text.last() == d.last());
            assert forall|i: int| 0 <= i < text.len() implies is_digit(#[trigger] text[i])
                || text[i] == '-' by {
                if i < y.len() {
                    assert(text[i] == y[i]);
                } else if i == y.len() {
                } else if i < y.len() + 1 + m.len() {
                    assert(text[i] == m[i - y.len() - 1]);
                } else if i == y.len() + 1 + m.len() {
                } else {
                    assert(text[i] == d[i - y.len() - m.len() - 2]);
                }
            }
        },
    }
}

/// A text of digits and hyphens is its own trimmed form and holds no slash.
pub proof fn lemma_digits_and_hyphens_plain(s: Seq<char>)
    requires
        digits_and_hyphens(s),
    ensures
        trim(s) == s,
        !s.contains('/'),
{
    lemma_digit_is_plain(s[0]);
    lemma_digit_is_plain(s.last());
    lemma_trim_plain(s);
    assert forall|i: int| 0 <= i < s.len() implies s[i] != '/' by {
        if is_digit(s[i]) {
            lemma_digit_is_plain(s[i]);
        }
    }
}

/// The canonical text of a well-formed date reads back as that date.
pub proof fn lemma_parse_canonical_text(date: FuzzyDate)
    requires
        date.well_formed(),
    ensures
        parse_date(date.iso_text()) == Ok::<FuzzyDate, ParseErrorView>(date),
{
    broadcast use {Year::lemma_of_view, Month::lemma_of_view, Day::lemma_of_view};

    let text = date.iso_text();
    lemma_iso_text_shape(date);
    lemma_digits_and_hyphens_plain(text);
    lemma_columns_round_trip(date);
    let y = padded(date.year_number() as nat, 4);
    lemma_padded_digits(date.year_number() as nat, 4);
    lemma_digits_read_back(y, 0xFFFF);
    match date {
        FuzzyDate::Year { year } => {
            assert(year_text_date(y) == Ok::<FuzzyDate, ParseErrorView>(date));
        },
        FuzzyDate::Month { year, month } => {
            let m = padded(month@ as nat, 2);
            lemma_padded_digits(month@ as nat, 2);
            lemma_digits_read_back(m, 0xFF);
            assert(text[y.len() as int] == '-');
            assert(text.contains('-'));
            lemma_split_first(y, m, '-');
            lemma_split_one(m, '-');
            let fields = trimmed_fields(text, '-');
            assert(split(text, '-') =~= seq![y, m]);
            assert(fields.len() == 2);
            assert(fields[0] == y);
            assert(fields[1] == m);
            assert(iso_month_date(y, m) == Ok::<FuzzyDate, ParseErrorView>(date));
        },
        FuzzyDate::Day { year, month, day } => {
            let m = padded(month@ as nat, 2);
            let d = padded(day@ as nat, 2);
            lemma_padded_digits(month@ as nat, 2);
            lemma_padded_digits(day@ as nat, 2);
            lemma_digits_read_back(m, 0xFF);
            lemma_digits_read_back(d, 0xFF);
            assert(text[y.len() as int] == '-');
            assert(text.contains('-'));
            let rest = m + seq!['-'] + d;
            assert(text =~= y + seq!['-'] + rest);
            lemma_split_first(y, rest, '-');
            lemma_split_first(m, d, '-');
            lemma_split_one(d, '-');
            let fields = trimmed_fields(text, '-');
            assert(split(text, '-') =~= seq![y, m, d]);
            assert(fields.len() == 3);
            assert(fields[0] == y);
            assert(fields[1] == m);
            assert(fields[2] == d);
            assert(iso_day_date(y, m, d) == Ok::<FuzzyDate, ParseErrorView>(date));
        },
    }
}

/// Every date that a text stands for is well formed.
pub proof fn lemma_parsed_date_well_formed(text: Seq<char>)
    ensures
        parse_date(text) matches Ok(date) ==> date.well_formed(),
{
    if let Ok(date) = parse_date(text) {
        assert forall|y: u16, m: Option<u8>, d: Option<u8>|
            columns_date(y, m, d) == Ok::<FuzzyDate, ParseErrorView>(date) implies date.well_formed(
        ) by {
            lemma_columns_date_well_formed(y, m, d);
        }
    }
}

/// Reading a text and writing the date gives the canonical text of that
/// date: a text that reads back as the same date.
pub proof fn lemma_format_of_parsed_reads_back(text: Seq<char>)
    ensures
        parse_date(text) matches Ok(date) ==> parse_date(date.iso_text()) == Ok::<
            FuzzyDate,
            ParseErrorView,
        >(date),
{
    lemma_parsed_date_well_formed(text);
    if let Ok(date) = parse_date(text) {
        lemma_parse_canonical_text(date);
    }
}

/// The canonical text of a range of well-formed dates, the start not after
/// the end, reads back as that range.
pub proof fn lemma_parse_canonical_range(start: FuzzyDate, end: FuzzyDate)
    requires
        start.well_formed(),
        end.well_formed(),
        !end.precedes(start),
    ensures
        parse_range(range_text(start, end)) == Ok::<(FuzzyDate, FuzzyDate), RangeErrorView>(
            (start, end),
        ),
{
    let first = start.iso_text();
    let second = end.iso_text();
    let text = range_text(start, end);
    lemma_iso_text_shape(start);
    lemma_iso_text_shape(end);
    lemma_digits_and_hyphens_plain(first);
    lemma_digits_and_hyphens_plain(second);
    lemma_digit_is_plain(first[0]);
    lemma_digit_is_plain(second.last());
    assert(text[0] == first[0]);
    assert(text.last() == second.last());
    lemma_trim_plain(text);
    lemma_split_first(first, second, '/');
    lemma_split_one(second, '/');
    assert(split(text, '/') =~= seq![first, second]);
    lemma_parse_canonical_text(start);
    lemma_parse_canonical_text(end);
}

/// Every range that a text stands for is one of two well-formed dates, the
/// start not after the end; and reading a text and writing the range gives
/// a text that reads back as the same range.
pub proof fn lemma_format_of_parsed_range_reads_back(text: Seq<char>)
    ensures
        parse_range(text) matches Ok(range) ==> {
            &&& range.0.well_formed()
            &&& range.1.well_formed()
            &&& !range.1.precedes(range.0)
            &&& parse_range(range_text(range.0, range.1)) == Ok::<
                (FuzzyDate, FuzzyDate),
                RangeErrorView,
            >(range)
        },
{
    if let Ok(range) = parse_range(text) {
        let fields = split(trim(text), '/');
        lemma_parsed_date_well_formed(fields[0]);
        lemma_parsed_date_well_formed(fields[1]);
        lemma_parse_canonical_range(range.0, range.1);
    }
}

} // verus!
