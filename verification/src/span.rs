//! Byte-offset spans into a source text.
use vstd::prelude::*;

verus! {

/// A half-open interval `[start, end)` of byte offsets into a source text.
#[derive(Clone, Copy, Debug, PartialEq, Eq, Structural)]
pub struct ShortSpan {
    pub start: usize,
    pub end: usize,
}

impl ShortSpan {
    /// The span from `start` to `end`.
    pub fn new(start: usize, end: usize) -> (span: ShortSpan)
        ensures
            span.start == start,
            span.end == end,
    {
        ShortSpan { start, end }
    }
}

} // verus!
