//! Ranges of dates: a start and an end, each of its own precision.

use crate::consts::RANGE_SEPARATOR;
use crate::date::{
    columns_date, day_after, lemma_bounds_in_calendar, not_later, optional_triple, triple, FuzzyDate,
};
use crate::error::{ParseError, ParseErrorView};
use crate::format::error_text;
use crate::parse::parse_date;
use crate::text::{chars_of, decimal, push_decimal, split, split_bounds, trim, trim_bounds};
use crate::types::{calendar_date, Day, Month, Year};
use std::str::FromStr;
use vstd::prelude::*;
use vstd::string::*;

verus! {

/// A range of dates, both ends included. The start is never after the end.
#[derive(Debug, Clone, Copy, PartialEq, Eq, Structural, Hash)]
pub struct FuzzyDateRange {
    start: FuzzyDate,
    end: FuzzyDate,
}

/// Why a range could not be built.
#[derive(Debug, Clone, PartialEq, Eq)]
pub enum RangeError {
    /// The start is after the end.
    InvalidRange { start: FuzzyDate, end: FuzzyDate },
    /// One of the two dates is no date.
    ParseError(ParseError),
    /// The text is no range; the payload says how.
    InvalidFormat(String),
}

/// Mathematical model of a [`RangeError`].
pub ghost enum RangeErrorView {
    InvalidRange { start: FuzzyDate, end: FuzzyDate },
    ParseError(ParseErrorView),
    InvalidFormat(Seq<char>),
}

impl View for RangeError {
    type V = RangeErrorView;

    open spec fn view(&self) -> RangeErrorView {
        match *self {
            RangeError::InvalidRange { start, end } => RangeErrorView::InvalidRange { start, end },
            RangeError::ParseError(error) => RangeErrorView::ParseError(error@),
            RangeError::InvalidFormat(detail) => RangeErrorView::InvalidFormat(detail@),
        }
    }
}

impl From<ParseError> for RangeError {
    fn from(error: ParseError) -> (result: RangeError) {
        RangeError::ParseError(error)
    }
}

impl vstd::std_specs::convert::FromSpecImpl<ParseError> for RangeError {
    open spec fn obeys_from_spec() -> bool {
        true
    }

    open spec fn from_spec(error: ParseError) -> RangeError {
        RangeError::ParseError(error)
    }
}

impl View for FuzzyDateRange {
    type V = (FuzzyDate, FuzzyDate);

    /// The start and the end.
    closed spec fn view(&self) -> (FuzzyDate, FuzzyDate) {
        (self.start, self.end)
    }
}

/// A result with the range replaced by its two dates and the error by its
/// model.
pub open spec fn range_result(result: Result<FuzzyDateRange, RangeError>) -> Result<
    (FuzzyDate, FuzzyDate),
    RangeErrorView,
> {
    match result {
        Ok(range) => Ok(range@),
        Err(error) => Err(error@),
    }
}

/// The range from `start` to `end`, refused where the start is after the
/// end.
pub open spec fn checked_range(start: FuzzyDate, end: FuzzyDate) -> Result<
    (FuzzyDate, FuzzyDate),
    RangeErrorView,
> {
    if end.precedes(start) {
        Err(RangeErrorView::InvalidRange { start, end })
    } else {
        Ok((start, end))
    }
}

/// The range that two triples of columns stand for: the start is read
/// first, then the end, then their order is checked.
pub open spec fn columns_range(
    start_year: u16,
    start_month: Option<u8>,
    start_day: Option<u8>,
    end_year: u16,
    end_month: Option<u8>,
    end_day: Option<u8>,
) -> Result<(FuzzyDate, FuzzyDate), RangeErrorView> {
    match columns_date(start_year, start_month, start_day) {
        Err(e) => Err(RangeErrorView::ParseError(e)),
        Ok(start) => match columns_date(end_year, end_month, end_day) {
            Err(e) => Err(RangeErrorView::ParseError(e)),
            Ok(end) => checked_range(start, end),
        },
    }
}

/// The message of the error for a text without a slash.
pub open spec fn no_separator_detail(text: Seq<char>) -> Seq<char> {
    "No range separator found (expected '/'): "@ + text
}

/// The message of the error for a text with `found` slashes, more than one.
pub open spec fn too_many_separators_detail(found: nat) -> Seq<char> {
    "Too many '/' separators: expected 1, found "@ + decimal(found)
}

/// The range that `text` stands for, or why it stands for none.
///
/// The text is trimmed and must hold exactly one slash. What stands before
/// it is read as the start and what stands after it as the end, each as a
/// date; having no slash of its own, each is a bare year or year-first. The
/// start is read first. Then the order of the two is checked.
pub open spec fn parse_range(text: Seq<char>) -> Result<(FuzzyDate, FuzzyDate), RangeErrorView> {
    let fields = split(trim(text), '/');
    if fields.len() == 1 {
        Err(RangeErrorView::InvalidFormat(no_separator_detail(text)))
    } else if fields.len() == 2 {
        match parse_date(fields[0]) {
            Err(e) => Err(RangeErrorView::ParseError(e)),
            Ok(start) => match parse_date(fields[1]) {
                Err(e) => Err(RangeErrorView::ParseError(e)),
                Ok(end) => checked_range(start, end),
            },
        }
    } else {
        Err(RangeErrorView::InvalidFormat(too_many_separators_detail((fields.len() - 1) as nat)))
    }
}

/// The canonical text of the range from `start` to `end`: that of the
/// start, a slash, that of the end.
pub open spec fn range_text(start: FuzzyDate, end: FuzzyDate) -> Seq<char> {
    start.iso_text() + seq!['/'] + end.iso_text()
}

/// The message of a range error.
pub open spec fn range_error_text(error: RangeErrorView) -> Seq<char> {
    match error {
        RangeErrorView::InvalidRange { start, end } => "Invalid date range: start ("@
            + start.iso_text() + ") is after end ("@ + end.iso_text() + ")"@,
        RangeErrorView::ParseError(e) => error_text(e),
        RangeErrorView::InvalidFormat(detail) => "Invalid range format: "@ + detail,
    }
}

/// Whether the concrete date `a` is `b` or earlier.
pub fn bound_not_later(a: (u16, u8, u8), b: (u16, u8, u8)) -> (holds: bool)
    ensures
        holds == not_later(triple(a), triple(b)),
{
    a.0 < b.0 || (a.0 == b.0 && (a.1 < b.1 || (a.1 == b.1 && a.2 <= b.2)))
}

impl FuzzyDateRange {
    #[verifier::type_invariant]
    spec fn ordered(self) -> bool {
        !self.end.precedes(self.start)
    }

    /// Whether `day` is a day of the calendar between the earliest and the
    /// latest concrete date of the range.
    pub open spec fn holds(self, day: (int, int, int)) -> bool {
        &&& calendar_date(day.0, day.1, day.2)
        &&& not_later(self@.0.lower(), day)
        &&& not_later(day, self@.1.upper())
    }

    /// Whether every concrete date that `date` may stand for lies between
    /// the earliest and the latest concrete date of the range.
    pub open spec fn covers(self, date: FuzzyDate) -> bool {
        not_later(self@.0.lower(), date.lower()) && not_later(date.upper(), self@.1.upper())
    }

    /// Whether the two ranges have a concrete date in common: each begins
    /// no later than the other ends.
    pub open spec fn meets(self, other: FuzzyDateRange) -> bool {
        not_later(self@.0.lower(), other@.1.upper()) && not_later(
            other@.0.lower(),
            self@.1.upper(),
        )
    }

    /// Whether the range lies in `other`: it begins no earlier and ends no
    /// later.
    pub open spec fn inside(self, other: FuzzyDateRange) -> bool {
        not_later(other@.0.lower(), self@.0.lower()) && not_later(
            self@.1.upper(),
            other@.1.upper(),
        )
    }

    /// Whether the range is one of two well-formed dates, the start not
    /// after the end. Every range read from text or built from columns is
    /// so; one built from two dates is so where the dates are well formed.
    pub open spec fn well_formed(self) -> bool {
        &&& self@.0.well_formed()
        &&& self@.1.well_formed()
        &&& !self@.1.precedes(self@.0)
    }

    /// Builds the range from `start` to `end`: `InvalidRange` where the start
    /// is after the end. Equal ends make a range.
    pub fn new(start: FuzzyDate, end: FuzzyDate) -> (result: Result<FuzzyDateRange, RangeError>)
        ensures
            range_result(result) == checked_range(start, end),
            result is Err <==> end.precedes(start),
    {
        if start > end {
            return Err(RangeError::InvalidRange { start, end });
        }
        Ok(FuzzyDateRange { start, end })
    }

    /// The start.
    pub fn start(&self) -> (start: FuzzyDate)
        ensures
            start == self@.0,
    {
        self.start
    }

    /// The end.
    pub fn end(&self) -> (end: FuzzyDate)
        ensures
            end == self@.1,
    {
        self.end
    }

    /// The start and the end.
    pub fn dates(&self) -> (dates: (FuzzyDate, FuzzyDate))
        ensures
            dates == self@,
            !dates.1.precedes(dates.0),
    {
        proof {
            use_type_invariant(self);
        }
        (self.start, self.end)
    }

    /// Whether every concrete date that `date` may stand for lies in the
    /// range.
    pub fn contains(&self, date: &FuzzyDate) -> (inside: bool)
        ensures
            inside == self.covers(*date),
    {
        let date_lower = date.lower_bound();
        let date_upper = date.upper_bound_inclusive();
        let range_lower = self.start.lower_bound();
        let range_upper = self.end.upper_bound_inclusive();
        bound_not_later(range_lower, date_lower) && bound_not_later(date_upper, range_upper)
    }

    /// Whether the two ranges have a concrete date in common.
    pub fn overlaps(&self, other: &FuzzyDateRange) -> (common: bool)
        ensures
            common == self.meets(*other),
    {
        let self_lower = self.start.lower_bound();
        let self_upper = self.end.upper_bound_inclusive();
        let other_lower = other.start.lower_bound();
        let other_upper = other.end.upper_bound_inclusive();
        bound_not_later(self_lower, other_upper) && bound_not_later(other_lower, self_upper)
    }

    /// Whether every concrete date of this range lies in `other`.
    pub fn is_within(&self, other: &FuzzyDateRange) -> (inside: bool)
        ensures
            inside == self.inside(*other),
    {
        let self_lower = self.start.lower_bound();
        let self_upper = self.end.upper_bound_inclusive();
        let other_lower = other.start.lower_bound();
        let other_upper = other.end.upper_bound_inclusive();
        bound_not_later(other_lower, self_lower) && bound_not_later(self_upper, other_upper)
    }

    /// The earliest concrete date of the range: that of its start.
    pub fn lower_bound(&self) -> (bound: (u16, u8, u8))
        ensures
            triple(bound) == self@.0.lower(),
    {
        self.start.lower_bound()
    }

    /// The latest concrete date of the range: that of its end.
    pub fn upper_bound_inclusive(&self) -> (bound: (u16, u8, u8))
        ensures
            triple(bound) == self@.1.upper(),
    {
        self.end.upper_bound_inclusive()
    }

    /// The concrete date right after the latest one of the range; none where
    /// that would be after the year 9999.
    pub fn upper_bound_exclusive(&self) -> (bound: Option<(u16, u8, u8)>)
        ensures
            optional_triple(bound) == day_after(
                self@.1.upper().0,
                self@.1.upper().1,
                self@.1.upper().2,
            ),
    {
        self.end.upper_bound_exclusive()
    }

    /// The range as columns: those of the start, then those of the end.
    pub fn to_columns(&self) -> (columns: (u16, Option<u8>, Option<u8>, u16, Option<u8>, Option<u8>))
        ensures
            columns.0 == self@.0.year_number(),
            columns.1 is Some <==> self@.0.month_number() is Some,
            columns.1 matches Some(m) ==> self@.0.month_number() == Some(m as int),
            columns.2 is Some <==> self@.0.day_number() is Some,
            columns.2 matches Some(d) ==> self@.0.day_number() == Some(d as int),
            columns.3 == self@.1.year_number(),
            columns.4 is Some <==> self@.1.month_number() is Some,
            columns.4 matches Some(m) ==> self@.1.month_number() == Some(m as int),
            columns.5 is Some <==> self@.1.day_number() is Some,
            columns.5 matches Some(d) ==> self@.1.day_number() == Some(d as int),
            columns.2 is Some ==> columns.1 is Some,
            columns.5 is Some ==> columns.4 is Some,
    {
        let (sy, sm, sd) = self.start.to_columns();
        let (ey, em, ed) = self.end.to_columns();
        (sy, sm, sd, ey, em, ed)
    }

    /// Builds a range from columns, validating each date and then their
    /// order: see [`columns_range`].
    pub fn from_columns(
        start_year: u16,
        start_month: Option<u8>,
        start_day: Option<u8>,
        end_year: u16,
        end_month: Option<u8>,
        end_day: Option<u8>,
    ) -> (result: Result<FuzzyDateRange, RangeError>)
        ensures
            range_result(result) == columns_range(
                start_year,
                start_month,
                start_day,
                end_year,
                end_month,
                end_day,
            ),
            result matches Ok(range) ==> range.well_formed(),
    {
        let start = match FuzzyDate::from_columns(start_year, start_month, start_day) {
            Ok(date) => date,
            Err(error) => {
                return Err(RangeError::ParseError(error));
            },
        };
        let end = match FuzzyDate::from_columns(end_year, end_month, end_day) {
            Ok(date) => date,
            Err(error) => {
                return Err(RangeError::ParseError(error));
            },
        };
        FuzzyDateRange::new(start, end)
    }

    /// Reads `text` as a range: see [`parse_range`].
    pub fn parse(text: &str) -> (result: Result<FuzzyDateRange, RangeError>)
        ensures
            range_result(result) == parse_range(text@),
            result matches Ok(range) ==> range.well_formed(),
    {
        let chars = chars_of(text);
        assert(chars@.subrange(0, chars@.len() as int) =~= text@);
        let (lo, hi) = trim_bounds(&chars, 0, chars.len());
        let fields = split_bounds(&chars, lo, hi, RANGE_SEPARATOR);
        let n: usize = fields.len();
        if n == 1 {
            let mut detail = "No range separator found (expected '/'): ".to_owned();
            detail.append(text);
            Err(RangeError::InvalidFormat(detail))
        } else if n == 2 {
            let first = fields[0];
            let second = fields[1];
            let start = match FuzzyDate::parse_span(text, &chars, first.0, first.1) {
                Ok(date) => date,
                Err(error) => {
                    return Err(RangeError::ParseError(error));
                },
            };
            let end = match FuzzyDate::parse_span(text, &chars, second.0, second.1) {
                Ok(date) => date,
                Err(error) => {
                    return Err(RangeError::ParseError(error));
                },
            };
            FuzzyDateRange::new(start, end)
        } else {
            let mut detail = "Too many '/' separators: expected 1, found ".to_owned();
            push_decimal(&mut detail, (n - 1) as u64);
            Err(RangeError::InvalidFormat(detail))
        }
    }

    /// The canonical text of the range.
    pub open spec fn iso_text(self) -> Seq<char> {
        range_text(self@.0, self@.1)
    }

    /// The canonical text of the range: that of the start, a slash, that of
    /// the end.
    pub fn to_string(&self) -> (text: String)
        ensures
            text@ == self.iso_text(),
    {
        proof {
            reveal_strlit("/");
        }
        let mut text = String::new();
        self.start.push_to(&mut text);
        text.append("/");
        self.end.push_to(&mut text);
        assert(text@ =~= self.iso_text());
        text
    }
}

impl FromStr for FuzzyDateRange {
    type Err = RangeError;

    /// Reads `text` as a range: see [`parse_range`].
    fn from_str(text: &str) -> (result: Result<FuzzyDateRange, RangeError>)
        ensures
            range_result(result) == parse_range(text@),
            result matches Ok(range) ==> range.well_formed(),
    {
        FuzzyDateRange::parse(text)
    }
}

impl RangeError {
    /// The message of the error.
    pub fn to_string(&self) -> (text: String)
        ensures
            text@ == range_error_text(self@),
    {
        let mut text = String::new();
        match self {
            RangeError::InvalidRange { start, end } => {
                text.append("Invalid date range: start (");
                start.push_to(&mut text);
                text.append(") is after end (");
                end.push_to(&mut text);
                text.append(")");
            },
            RangeError::ParseError(error) => {
                error.push_to(&mut text);
            },
            RangeError::InvalidFormat(detail) => {
                text.append("Invalid range format: ");
                text.append(detail.as_str());
            },
        }
        assert(text@ =~= range_error_text(self@));
        text
    }
}

/// Two ranges overlap whichever is asked.
pub proof fn lemma_overlap_symmetric(a: FuzzyDateRange, b: FuzzyDateRange)
    ensures
        a.meets(b) == b.meets(a),
{
}

/// Every range lies in itself, and lying in another range carries over: to
/// the ranges that lie in the first, and to the dates that it covers.
pub proof fn lemma_inside_is_an_order(a: FuzzyDateRange, b: FuzzyDateRange, c: FuzzyDateRange)
    ensures
        a.inside(a),
        a.inside(b) && b.inside(c) ==> a.inside(c),
        forall|date: FuzzyDate| a.inside(b) && #[trigger] a.covers(date) ==> b.covers(date),
{
}

/// The earliest concrete date of a well-formed range is not later than its
/// latest, so the range overlaps itself and every range that it lies in.
pub proof fn lemma_range_not_empty(a: FuzzyDateRange, b: FuzzyDateRange)
    requires
        a.well_formed(),
    ensures
        not_later(a@.0.lower(), a@.1.upper()),
        a.meets(a),
        a.inside(b) ==> a.meets(b),
{
    lemma_bounds_in_calendar(a@.0);
    lemma_bounds_in_calendar(a@.1);
}

/// A range covers a well-formed date exactly where it covers the range from
/// that date to itself, and then the two overlap.
pub proof fn lemma_covers_is_inside(range: FuzzyDateRange, point: FuzzyDateRange)
    requires
        point@.0 == point@.1,
        point@.0.well_formed(),
    ensures
        range.covers(point@.0) == point.inside(range),
        range.covers(point@.0) ==> range.meets(point),
{
    lemma_bounds_in_calendar(point@.0);
}

/// The range of one year covers exactly the dates of that year; the range
/// of one month covers exactly the dates with a month, that month of that
/// year.
pub proof fn lemma_precision_of_cover(range: FuzzyDateRange, date: FuzzyDate)
    requires
        range@.0 == range@.1,
        range@.0.well_formed(),
        date.well_formed(),
    ensures
        range@.0 is Year ==> (range.covers(date) <==> date.year_number()
            == range@.0.year_number()),
        range@.0 is Month ==> (range.covers(date) <==> date.year_number()
            == range@.0.year_number() && date.month_number() == range@.0.month_number()),
        range@.0 is Day ==> (range.covers(date) <==> date == range@.0),
{
    broadcast use {Year::lemma_of_view, Month::lemma_of_view, Day::lemma_of_view};

    if range@.0 is Day && range.covers(date) {
        crate::order::lemma_order_trichotomy(date, range@.0);
    }
}

/// Two well-formed ranges overlap exactly where some day of the calendar
/// lies in both.
pub proof fn lemma_overlap_is_a_common_day(a: FuzzyDateRange, b: FuzzyDateRange)
    requires
        a.well_formed(),
        b.well_formed(),
    ensures
        a.meets(b) <==> exists|day: (int, int, int)| #[trigger] a.holds(day) && b.holds(day),
{
    lemma_bounds_in_calendar(a@.0);
    lemma_bounds_in_calendar(a@.1);
    lemma_bounds_in_calendar(b@.0);
    lemma_bounds_in_calendar(b@.1);
    if a.meets(b) {
        let day = if not_later(a@.0.lower(), b@.0.lower()) {
            b@.0.lower()
        } else {
            a@.0.lower()
        };
        assert(a.holds(day) && b.holds(day));
    }
}

/// A well-formed range covers a well-formed date exactly where every day
/// that the date may stand for lies in the range.
pub proof fn lemma_cover_is_every_day(range: FuzzyDateRange, date: FuzzyDate)
    requires
        range.well_formed(),
        date.well_formed(),
    ensures
        range.covers(date) <==> forall|day: (int, int, int)|
            calendar_date(day.0, day.1, day.2) && not_later(date.lower(), day) && not_later(
                day,
                date.upper(),
            ) ==> #[trigger] range.holds(day),
{
    lemma_bounds_in_calendar(date);
    if forall|day: (int, int, int)|
        calendar_date(day.0, day.1, day.2) && not_later(date.lower(), day) && not_later(
            day,
            date.upper(),
        ) ==> #[trigger] range.holds(day) {
        assert(range.holds(date.lower()));
        assert(range.holds(date.upper()));
    }
}

/// A well-formed range lies in another exactly where every day of the first
/// lies in the second.
pub proof fn lemma_inside_is_every_day(a: FuzzyDateRange, b: FuzzyDateRange)
    requires
        a.well_formed(),
    ensures
        a.inside(b) <==> forall|day: (int, int, int)| #[trigger] a.holds(day) ==> b.holds(day),
{
    lemma_bounds_in_calendar(a@.0);
    lemma_bounds_in_calendar(a@.1);
    if forall|day: (int, int, int)| #[trigger] a.holds(day) ==> b.holds(day) {
        assert(a.holds(a@.0.lower()));
        assert(a.holds(a@.1.upper()));
    }
}

} // verus!
