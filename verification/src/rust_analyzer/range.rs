//! A range of byte offsets into a source text.

use vstd::prelude::*;

use super::size::TextSize;

verus! {

/// The byte offsets `start..end` of a source text, with `start <= end`.
#[derive(Clone, Copy, Debug)]
pub struct TextRange {
    start: TextSize,
    end: TextSize,
}

impl View for TextRange {
    /// The start and end offsets.
    type V = (nat, nat);

    closed spec fn view(&self) -> (nat, nat) {
        (self.start.raw as nat, self.end.raw as nat)
    }
}

impl TextRange {
    #[verifier::type_invariant]
    spec fn ordered(self) -> bool {
        self.start.raw <= self.end.raw
    }

    /// The range `start..end`; the start may not lie after the end.
    pub fn new(start: TextSize, end: TextSize) -> (r: TextRange)
        requires
            start.raw <= end.raw,
        ensures
            r@ == (start.raw as nat, end.raw as nat),
    {
        TextRange { start, end }
    }

    /// The offset where the range starts.
    pub fn start(&self) -> (r: TextSize)
        ensures
            r.raw == self@.0,
            self@.0 <= self@.1,
    {
        proof {
            use_type_invariant(self);
        }
        self.start
    }

    /// The offset where the range ends.
    pub fn end(&self) -> (r: TextSize)
        ensures
            r.raw == self@.1,
            self@.0 <= self@.1,
    {
        proof {
            use_type_invariant(self);
        }
        self.end
    }
}

} // verus!
