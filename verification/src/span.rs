//! Source spans and package-qualified spans for diagnostics.

use vstd::prelude::*;

verus! {

/// A half-open region of source text, in byte offsets.
///
/// The zero span (`lo == hi == 0`) marks generated code that has no source
/// location; the evaluator's step logic treats such statements as invisible.
#[derive(Clone, Copy, Debug, PartialEq, Eq, Structural)]
pub struct Span {
    pub lo: u32,
    pub hi: u32,
}

impl Default for Span {
    /// The zero span that marks generated code.
    fn default() -> (r: Span)
        ensures
            r.lo == 0 && r.hi == 0,
    {
        Span { lo: 0, hi: 0 }
    }
}

/// Ordering of spans: by low offset, then by high offset.
pub open spec fn span_lt(a: Span, b: Span) -> bool {
    a.lo < b.lo || (a.lo == b.lo && a.hi < b.hi)
}

/// Compares two spans by low offset, then high offset.
pub fn span_is_lt(a: Span, b: Span) -> (r: bool)
    ensures
        r == span_lt(a, b),
{
    a.lo < b.lo || (a.lo == b.lo && a.hi < b.hi)
}

/// A span together with the package whose source it points into.
#[derive(Clone, Copy, Debug, PartialEq, Eq, Structural)]
pub struct PackageSpan {
    pub package: usize,
    pub span: Span,
}

} // verus!
