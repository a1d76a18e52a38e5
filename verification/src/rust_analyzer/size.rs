//! A byte offset into a source text.

use vstd::prelude::*;

verus! {

/// A byte offset into a source text.
#[derive(Clone, Copy, Debug, PartialEq, Eq, Structural)]
pub struct TextSize {
    pub raw: u32,
}

impl TextSize {
    /// The offset `raw`.
    pub fn new(raw: u32) -> (r: TextSize)
        ensures
            r.raw == raw,
    {
        TextSize { raw }
    }
}

impl From<u32> for TextSize {
    fn from(raw: u32) -> (r: TextSize) {
        TextSize { raw }
    }
}

impl vstd::std_specs::convert::FromSpecImpl<u32> for TextSize {
    open spec fn obeys_from_spec() -> bool {
        true
    }

    open spec fn from_spec(raw: u32) -> TextSize {
        TextSize { raw }
    }
}

} // verus!
