//! Source positions and ranges.

use vstd::prelude::*;

verus! {

/// A place in the source: 1-based line and column, 0-based byte offset.
#[derive(Debug, PartialEq, Eq, Clone, Copy, Hash, Structural)]
pub struct Position {
    pub line: usize,
    pub column: usize,
    pub offset: usize,
}

/// The byte range of one lexical atom, from `start` up to `end`.
#[derive(Debug, PartialEq, Eq, Clone, Copy, Hash, Structural)]
pub struct Span {
    pub start: Position,
    pub end: Position,
}

impl Position {
    pub fn new(line: usize, column: usize, offset: usize) -> (r: Position)
        ensures
            r.line == line,
            r.column == column,
            r.offset == offset,
    {
        Position { line, column, offset }
    }
}

impl Span {
    pub fn new(start: Position, end: Position) -> (r: Span)
        ensures
            r.start == start,
            r.end == end,
    {
        Span { start, end }
    }

    /// The span from the start of this one to the end of `last`.
    pub fn to(self, last: Span) -> (r: Span)
        ensures
            r.start == self.start,
            r.end == last.end,
    {
        Span { start: self.start, end: last.end }
    }
}

} // verus!
