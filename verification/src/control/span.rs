//! Lengths of time in whole nanoseconds.

use vstd::prelude::*;

verus! {

/// Nanoseconds in a millisecond.
pub const NANOS_PER_MILLI: u128 = 1_000_000;

/// A length of time. Points in time are spans too, counted from a start that the
/// program picks once.
#[derive(Clone, Copy, Debug, PartialEq, Eq, Structural)]
pub struct Span {
    pub nanos: u128,
}

impl Span {
    /// The empty span.
    pub fn zero() -> (span: Span)
        ensures
            span.nanos == 0,
    {
        Span { nanos: 0 }
    }

    pub fn from_millis(millis: u64) -> (span: Span)
        ensures
            span.nanos == millis * NANOS_PER_MILLI,
    {
        Span { nanos: millis as u128 * NANOS_PER_MILLI }
    }

    pub fn is_zero(&self) -> (zero: bool)
        ensures
            zero == (self.nanos == 0),
    {
        self.nanos == 0
    }

    /// The shorter of two spans.
    pub fn shorter(self, other: Span) -> (span: Span)
        ensures
            span.nanos == if self.nanos <= other.nanos { self.nanos } else { other.nanos },
    {
        if self.nanos <= other.nanos {
            self
        } else {
            other
        }
    }

    /// What is left of the span after `other`; nothing where `other` is longer.
    pub fn saturating_sub(self, other: Span) -> (span: Span)
        ensures
            span == remainder(self, other),
    {
        if self.nanos <= other.nanos {
            Span { nanos: 0 }
        } else {
            Span { nanos: self.nanos - other.nanos }
        }
    }
}

/// The part of `span` that `taken` leaves, never below zero.
pub open spec fn remainder(span: Span, taken: Span) -> Span {
    if span.nanos <= taken.nanos {
        Span { nanos: 0 }
    } else {
        Span { nanos: (span.nanos - taken.nanos) as u128 }
    }
}

/// What a span leaves of another is their difference, and nothing where it is the longer one.
pub proof fn law_remainder_is_the_difference(span: Span, taken: Span)
    ensures
        taken.nanos <= span.nanos ==> remainder(span, taken).nanos + taken.nanos == span.nanos,
        taken.nanos >= span.nanos ==> remainder(span, taken).nanos == 0,
{
}

} // verus!
