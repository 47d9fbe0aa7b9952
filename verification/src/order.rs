//! The total order of dates of mixed precision.

use crate::date::FuzzyDate;
use crate::range::FuzzyDateRange;
use crate::types::{Day, Month, Year};
use std::cmp::Ordering;
use vstd::prelude::*;
use vstd::std_specs::cmp::PartialOrdSpecImpl;

verus! {

impl FuzzyDate {
    /// How the date stands to `other` in the order of dates.
    pub open spec fn ordering(self, other: FuzzyDate) -> Ordering {
        if self.precedes(other) {
            Ordering::Less
        } else if other.precedes(self) {
            Ordering::Greater
        } else {
            Ordering::Equal
        }
    }

    /// Compares by lower bound, then by precision, the less precise first.
    pub fn cmp(&self, other: &FuzzyDate) -> (order: Ordering)
        ensures
            order == self.ordering(*other),
            order == Ordering::Equal <==> *self == *other,
    {
        proof {
            lemma_order_trichotomy(*self, *other);
        }
        let a = self.lower_bound();
        let b = other.lower_bound();
        if a.0 < b.0 {
            Ordering::Less
        } else if a.0 > b.0 {
            Ordering::Greater
        } else if a.1 < b.1 {
            Ordering::Less
        } else if a.1 > b.1 {
            Ordering::Greater
        } else if a.2 < b.2 {
            Ordering::Less
        } else if a.2 > b.2 {
            Ordering::Greater
        } else {
            let rank = self.precision_rank();
            let other_rank = other.precision_rank();
            if rank < other_rank {
                Ordering::Less
            } else if rank > other_rank {
                Ordering::Greater
            } else {
                Ordering::Equal
            }
        }
    }
}

impl PartialOrd for FuzzyDate {
    fn partial_cmp(&self, other: &FuzzyDate) -> (order: Option<Ordering>) {
        Some(self.cmp(other))
    }
}

impl PartialOrdSpecImpl for FuzzyDate {
    open spec fn obeys_partial_cmp_spec() -> bool {
        true
    }

    open spec fn partial_cmp_spec(&self, other: &FuzzyDate) -> Option<Ordering> {
        Some(self.ordering(*other))
    }
}

impl FuzzyDateRange {
    /// The strict order of ranges: by start, and among ranges with one start
    /// by end.
    pub open spec fn precedes(self, other: FuzzyDateRange) -> bool {
        self@.0.precedes(other@.0) || (self@.0 == other@.0 && self@.1.precedes(other@.1))
    }

    /// How the range stands to `other` in the order of ranges.
    pub open spec fn ordering(self, other: FuzzyDateRange) -> Ordering {
        if self.precedes(other) {
            Ordering::Less
        } else if other.precedes(self) {
            Ordering::Greater
        } else {
            Ordering::Equal
        }
    }

    /// Compares by start, then by end.
    pub fn cmp(&self, other: &FuzzyDateRange) -> (order: Ordering)
        ensures
            order == self.ordering(*other),
            order == Ordering::Equal <==> self@ == other@,
    {
        proof {
            lemma_order_trichotomy(self@.0, other@.0);
            lemma_order_trichotomy(self@.1, other@.1);
        }
        match self.start().cmp(&other.start()) {
            Ordering::Equal => self.end().cmp(&other.end()),
            Ordering::Less => Ordering::Less,
            Ordering::Greater => Ordering::Greater,
        }
    }
}

impl PartialOrd for FuzzyDateRange {
    fn partial_cmp(&self, other: &FuzzyDateRange) -> (order: Option<Ordering>) {
        Some(self.cmp(other))
    }
}

impl PartialOrdSpecImpl for FuzzyDateRange {
    open spec fn obeys_partial_cmp_spec() -> bool {
        true
    }

    open spec fn partial_cmp_spec(&self, other: &FuzzyDateRange) -> Option<Ordering> {
        Some(self.ordering(*other))
    }
}

/// Of two ranges at most one comes before the other, and where neither does
/// they have the same start and the same end.
pub proof fn lemma_range_order_trichotomy(a: FuzzyDateRange, b: FuzzyDateRange)
    ensures
        a.precedes(b) || a@ == b@ || b.precedes(a),
        !(a.precedes(b) && a@ == b@),
        !(b.precedes(a) && a@ == b@),
        !(a.precedes(b) && b.precedes(a)),
{
    lemma_order_trichotomy(a@.0, b@.0);
    lemma_order_trichotomy(a@.1, b@.1);
}

/// The order of ranges is transitive.
pub proof fn lemma_range_order_transitive(a: FuzzyDateRange, b: FuzzyDateRange, c: FuzzyDateRange)
    requires
        a.precedes(b),
        b.precedes(c),
    ensures
        a.precedes(c),
{
    lemma_order_trichotomy(a@.0, b@.0);
    lemma_order_trichotomy(b@.0, c@.0);
    lemma_order_trichotomy(a@.0, c@.0);
    if a@.0.precedes(b@.0) && b@.0.precedes(c@.0) {
        lemma_order_transitive(a@.0, b@.0, c@.0);
    }
    if a@.1.precedes(b@.1) && b@.1.precedes(c@.1) {
        lemma_order_transitive(a@.1, b@.1, c@.1);
    }
}

/// Of two dates exactly one holds: the first precedes the second, they are
/// equal, or the second precedes the first.
pub proof fn lemma_order_trichotomy(a: FuzzyDate, b: FuzzyDate)
    ensures
        a.precedes(b) || a == b || b.precedes(a),
        !(a.precedes(b) && a == b),
        !(b.precedes(a) && a == b),
        !(a.precedes(b) && b.precedes(a)),
{
    broadcast use {Year::lemma_of_view, Month::lemma_of_view, Day::lemma_of_view};

    if a.lower() == b.lower() && a.rank() == b.rank() {
        assert(Year::of(a.year_number()) == Year::of(b.year_number()));
        match a {
            FuzzyDate::Day { year, month, day } => {
                assert(b == FuzzyDate::Day {
                    year: Year::of(year@),
                    month: Month::of(month@),
                    day: Day::of(day@),
                });
            },
            FuzzyDate::Month { year, month } => {
                assert(b == FuzzyDate::Month { year: Year::of(year@), month: Month::of(month@) });
            },
            FuzzyDate::Year { year } => {
                assert(b == FuzzyDate::Year { year: Year::of(year@) });
            },
        }
    }
}

/// The order of dates is transitive.
pub proof fn lemma_order_transitive(a: FuzzyDate, b: FuzzyDate, c: FuzzyDate)
    requires
        a.precedes(b),
        b.precedes(c),
    ensures
        a.precedes(c),
{
}

/// Among dates with the same lower bound the precision decides: a year comes
/// before a month, and a month before a day.
pub proof fn lemma_precision_breaks_ties(a: FuzzyDate, b: FuzzyDate)
    requires
        a.lower() == b.lower(),
    ensures
        a.precedes(b) <==> a.rank() < b.rank(),
{
}

/// A year comes before its January, and a month before its first day.
pub proof fn lemma_year_month_day_in_order(year: Year, month: Month, day: Day)
    requires
        month@ == 1,
        day@ == 1,
    ensures
        (FuzzyDate::Year { year }).precedes(FuzzyDate::Month { year, month }),
        (FuzzyDate::Month { year, month }).precedes(FuzzyDate::Day { year, month, day }),
        (FuzzyDate::Year { year }).precedes(FuzzyDate::Day { year, month, day }),
{
}

} // verus!
