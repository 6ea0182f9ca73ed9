//! Where in its source text a piece of a program stands.

use vstd::prelude::*;

verus! {

/// A stretch of the source text, in bytes: it starts at `start` and ends
/// before `end`.
#[derive(Clone, Copy, Debug)]
pub struct Span {
    start: usize,
    end: usize,
}

impl Span {
    /// The index of the first byte.
    pub closed spec fn spec_start(&self) -> usize {
        self.start
    }

    /// The index after the last byte.
    pub closed spec fn spec_end(&self) -> usize {
        self.end
    }

    /// The stretch from `start` to before `end`.
    pub closed spec fn of(start: usize, end: usize) -> Span {
        Span { start, end }
    }

    /// What a stretch holds.
    pub broadcast proof fn lemma_of(start: usize, end: usize)
        ensures
            (#[trigger] Span::of(start, end)).start() == start,
            Span::of(start, end).end() == end,
    {
    }

    /// The stretch from `start` to before `end`.
    pub fn new(start: usize, end: usize) -> (span: Self)
        ensures
            span == Span::of(start, end),
            span.start() == start,
            span.end() == end,
    {
        Self { start, end }
    }

    /// The index of the first byte.
    #[verifier::when_used_as_spec(spec_start)]
    pub fn start(&self) -> (start: usize)
        ensures
            start == self.start(),
    {
        self.start
    }

    /// The index after the last byte.
    #[verifier::when_used_as_spec(spec_end)]
    pub fn end(&self) -> (end: usize)
        ensures
            end == self.end(),
    {
        self.end
    }
}

} // verus!
