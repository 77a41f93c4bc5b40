//! Byte ranges of source text.

use vstd::prelude::*;

verus! {

/// A byte-range span in source code: `offset` and length `len`.
#[derive(Debug, Clone, Copy, PartialEq, Eq, Hash, Structural)]
pub struct Span {
    pub offset: u32,
    pub len: u32,
}

impl Span {
    /// One past the last byte of the span.
    pub open spec fn end(self) -> int {
        self.offset + self.len
    }

    pub fn new(offset: u32, len: u32) -> (r: Span)
        ensures
            r.offset == offset,
            r.len == len,
    {
        Span { offset, len }
    }

    /// A zero-length span at offset 0, used for synthetic nodes.
    pub fn dummy() -> (r: Span)
        ensures
            r.offset == 0,
            r.len == 0,
    {
        Span { offset: 0, len: 0 }
    }

    /// The span that starts where the earlier of the two starts and ends where the later ends.
    pub open spec fn spec_merge(self, other: Span) -> Span {
        let start = if self.offset <= other.offset { self.offset } else { other.offset };
        let end = if self.end() >= other.end() { self.end() } else { other.end() };
        Span { offset: start, len: (end - start) as u32 }
    }

    /// Merge two spans into one covering both (and any gap between them).
    pub fn merge(self, other: Span) -> (r: Span)
        requires
            self.end() <= u32::MAX,
            other.end() <= u32::MAX,
        ensures
            r == self.spec_merge(other),
            r.offset <= self.offset && r.offset <= other.offset,
            r.end() >= self.end() && r.end() >= other.end(),
            r.offset == self.offset || r.offset == other.offset,
            r.end() == self.end() || r.end() == other.end(),
    {
        let start = if self.offset <= other.offset { self.offset } else { other.offset };
        let e1 = self.offset + self.len;
        let e2 = other.offset + other.len;
        let end = if e1 >= e2 { e1 } else { e2 };
        Span { offset: start, len: end - start }
    }
}

/// Merging is symmetric: merging `a` with `b` gives the same span as merging `b` with `a`.
pub proof fn lemma_merge_commutative(a: Span, b: Span)
    ensures
        a.spec_merge(b) == b.spec_merge(a),
{
}

/// The merge of two spans is the smallest span containing both.
pub proof fn lemma_merge_smallest_cover(a: Span, b: Span, c: Span)
    requires
        c.offset <= a.offset,
        c.offset <= b.offset,
        c.end() >= a.end(),
        c.end() >= b.end(),
    ensures
        c.offset <= a.spec_merge(b).offset,
        a.spec_merge(b).offset + a.spec_merge(b).len <= c.end(),
{
}

} // verus!
