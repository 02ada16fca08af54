//! Source positions.

use vstd::prelude::*;

verus! {

/// A half-open range of byte positions in the source, `lo` to `hi`.
#[derive(Clone, Copy, Debug, PartialEq, Eq, Hash, Structural)]
pub struct Span {
    pub lo: u32,
    pub hi: u32,
}

impl Span {
    /// The span from the smaller to the larger of two positions.
    pub open spec fn spec_new(a: u32, b: u32) -> Span {
        if a <= b {
            Span { lo: a, hi: b }
        } else {
            Span { lo: b, hi: a }
        }
    }

    /// The span that stands for "no position".
    pub open spec fn spec_dummy() -> Span {
        Span { lo: 0, hi: 0 }
    }

    pub open spec fn spec_is_dummy(&self) -> bool {
        self.lo == 0 && self.hi == 0
    }

    /// The empty span at the start of this one.
    pub open spec fn spec_shrink_to_lo(&self) -> Span {
        Span { lo: self.lo, hi: self.lo }
    }

    /// The empty span at the end of this one.
    pub open spec fn spec_shrink_to_hi(&self) -> Span {
        Span { lo: self.hi, hi: self.hi }
    }

    /// The span between the start of this one and the start of `end`.
    pub open spec fn spec_until(&self, end: Span) -> Span {
        Span::spec_new(self.lo, end.lo)
    }

    /// The smallest span that covers both this one and `end`.
    pub open spec fn spec_to(&self, end: Span) -> Span {
        Span {
            lo: if self.lo <= end.lo { self.lo } else { end.lo },
            hi: if self.hi >= end.hi { self.hi } else { end.hi },
        }
    }

    /// Builds a span from two positions, in either order.
    #[verifier::when_used_as_spec(spec_new)]
    pub fn new(a: u32, b: u32) -> (s: Span)
        ensures
            s == Span::spec_new(a, b),
    {
        if a <= b {
            Span { lo: a, hi: b }
        } else {
            Span { lo: b, hi: a }
        }
    }

    #[verifier::when_used_as_spec(spec_dummy)]
    pub fn dummy() -> (s: Span)
        ensures
            s == Span::spec_dummy(),
    {
        Span { lo: 0, hi: 0 }
    }

    #[verifier::when_used_as_spec(spec_is_dummy)]
    pub fn is_dummy(&self) -> (r: bool)
        ensures
            r == self.spec_is_dummy(),
    {
        self.lo == 0 && self.hi == 0
    }

    #[verifier::when_used_as_spec(spec_shrink_to_lo)]
    pub fn shrink_to_lo(&self) -> (s: Span)
        ensures
            s == self.spec_shrink_to_lo(),
    {
        Span { lo: self.lo, hi: self.lo }
    }

    #[verifier::when_used_as_spec(spec_shrink_to_hi)]
    pub fn shrink_to_hi(&self) -> (s: Span)
        ensures
            s == self.spec_shrink_to_hi(),
    {
        Span { lo: self.hi, hi: self.hi }
    }

    #[verifier::when_used_as_spec(spec_until)]
    pub fn until(&self, end: Span) -> (s: Span)
        ensures
            s == self.spec_until(end),
    {
        Span::new(self.lo, end.lo)
    }

    #[verifier::when_used_as_spec(spec_to)]
    pub fn to(&self, end: Span) -> (s: Span)
        ensures
            s == self.spec_to(end),
    {
        Span {
            lo: if self.lo <= end.lo { self.lo } else { end.lo },
            hi: if self.hi >= end.hi { self.hi } else { end.hi },
        }
    }
}

} // verus!
