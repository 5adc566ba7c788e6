//! Source locations.
use vstd::prelude::*;

verus! {

/// A source location: byte offsets, file name, and one-based line and column.
#[derive(Debug, PartialEq, Eq)]
pub struct Span {
    pub start: usize,
    pub end: usize,
    pub filename: String,
    pub line: u32,
    pub col: u32,
}

/// The value of a [`Span`] as a mathematical object.
pub ghost struct SpanV {
    pub start: usize,
    pub end: usize,
    pub filename: Seq<char>,
    pub line: u32,
    pub col: u32,
}

/// The view of a [`Span`].
pub open spec fn span_view(t: Span) -> SpanV
    decreases t,
{
    SpanV {
        start: t.start,
        end: t.end,
        filename: t.filename@,
        line: t.line,
        col: t.col,
    }
}

impl View for Span {
    type V = SpanV;

    open spec fn view(&self) -> SpanV {
        span_view(*self)
    }
}

impl Clone for Span {
    fn clone(&self) -> (r: Self)
        ensures
            r@ == self@,
    {
        self.copy()
    }
}

impl Span {
    /// A copy with the same view.
    pub fn copy(&self) -> (r: Self)
        ensures
            r@ == self@,
        decreases *self,
    {
        Span {
            start: self.start,
            end: self.end,
            filename: self.filename.clone(),
            line: self.line,
            col: self.col,
        }
    }

    /// Whether two values have the same view.
    pub fn same(&self, other: &Self) -> (r: bool)
        ensures
            r == (self@ == other@),
        decreases *self,
    {
        self.start == other.start && self.end == other.end && self.filename == other.filename && self.line == other.line && self.col == other.col
    }
}

impl Span {
    /// A location of the bytes `start` to `end`, on the first line of `filename`.
    pub fn new(start: usize, end: usize, filename: &str) -> (r: Self)
        ensures
            r@ == (SpanV { start, end, filename: filename@, line: 1, col: 1 }),
    {
        Span { start, end, filename: filename.to_owned(), line: 1, col: 1 }
    }
}

} // verus!
