//! Protected spans: byte ranges of a source that the rewriter copies
//! verbatim.
use vstd::prelude::*;

verus! {

/// What a protected span covers.
#[derive(Clone, Copy, Debug, PartialEq, Eq, Structural)]
pub enum SpanKind {
    /// A comment the policy kept.
    Comment,
    /// A literal, a prologue or a whole bailed-out file.
    Protected,
}

/// A protected byte range `start..end` of a source.
#[derive(Clone, Copy, Debug, PartialEq, Eq, Structural)]
pub struct Span {
    pub start: usize,
    pub end: usize,
    pub kind: SpanKind,
}

impl Span {
    pub fn new(start: usize, end: usize, kind: SpanKind) -> (r: Span)
        ensures
            r == (Span { start, end, kind }),
    {
        Span { start, end, kind }
    }
}

} // verus!
