//! Source locations: half-open offset ranges into the analyzed source text.

use vstd::prelude::*;

verus! {

/// A half-open range `[start, end)` of offsets into the source buffer a tree
/// was parsed from. Spans only anchor diagnostics to source text; they are
/// never mutated after parsing.
#[derive(Debug, Clone, Copy, PartialEq, Eq, Structural)]
pub struct Span {
    pub start: usize,
    pub end: usize,
}

impl Span {
    /// A span never runs backwards.
    pub open spec fn wf(self) -> bool {
        self.start <= self.end
    }

    pub fn new(start: usize, end: usize) -> (r: Span)
        requires
            start <= end,
        ensures
            r == (Span { start, end }),
            r.wf(),
    {
        Span { start, end }
    }
}

impl DeepView for Span {
    type V = Span;

    open spec fn deep_view(&self) -> Span {
        *self
    }
}

} // verus!
