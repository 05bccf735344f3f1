use vstd::prelude::*;

verus! {

/// A byte-offset range into the source text of a document.
///
/// Spans serve two purposes: locating diagnostics, and acting as a stable
/// identity for a node within a single document (a parser assigns each node
/// a distinct span).
#[derive(Clone, Copy, Debug, PartialEq, Eq, Structural)]
pub struct Span {
    pub start: usize,
    pub end: usize,
}

impl Span {
    /// A span is ordered: it never ends before it starts.
    pub open spec fn wf(self) -> bool {
        self.start <= self.end
    }

    /// The span lies within the first `bound` bytes of the source.
    pub open spec fn within(self, bound: nat) -> bool {
        self.start <= self.end && self.end <= bound
    }

    pub fn new(start: usize, end: usize) -> (r: Span)
        ensures
            r == (Span { start, end }),
    {
        Span { start, end }
    }

    /// The smallest span covering both `self` and `other`.
    pub fn merge(&self, other: &Span) -> (r: Span)
        ensures
            r.start == if self.start <= other.start {
                self.start
            } else {
                other.start
            },
            r.end == if self.end >= other.end {
                self.end
            } else {
                other.end
            },
    {
        let start: usize = if self.start <= other.start {
            self.start
        } else {
            other.start
        };
        let end: usize = if self.end >= other.end {
            self.end
        } else {
            other.end
        };
        Span { start, end }
    }
}

} // verus!
