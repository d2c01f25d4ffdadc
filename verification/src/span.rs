//! Spans: a start and an end, each a line and a column.

use crate::decimal::decimal;
use crate::layout::{can_render, span_text};
use crate::lines::{lines_of, Lines};
use crate::render::{excerpt, push_range};
use vstd::prelude::*;

verus! {

/// The lines and columns between which a span runs.
///
/// Lines count from one, columns count characters from zero.  The start is the
/// first character of the span and the end is the position just behind its
/// last one.
#[derive(Clone, Copy, Debug, PartialEq, Eq, Structural)]
pub struct Region {
    pub start_line: usize,
    pub start_column: usize,
    pub end_line: usize,
    pub end_column: usize,
}

impl Region {
    /// The span covers no character at all.
    pub open spec fn empty(self) -> bool {
        self.start_line == self.end_line && self.start_column == self.end_column
    }

    /// The span starts and ends on the same line.
    pub open spec fn single_line(self) -> bool {
        self.start_line == self.end_line
    }

    /// The end does not lie before the start.
    pub open spec fn well_formed(self) -> bool {
        &&& self.start_line <= self.end_line
        &&& self.start_line == self.end_line ==> self.start_column <= self.end_column
    }

    /// The region between the two positions.
    pub fn new(start_line: usize, start_column: usize, end_line: usize, end_column: usize) -> (region: Region)
        ensures
            region.start_line == start_line,
            region.start_column == start_column,
            region.end_line == end_line,
            region.end_column == end_column,
    {
        Region { start_line, start_column, end_line, end_column }
    }
}

/// The range of a span as a text: the start and the end, each as line, colon
/// and column, with two dots between them.
pub open spec fn range_text(r: Region) -> Seq<char> {
    decimal(r.start_line as nat) + seq![':'] + decimal(r.start_column as nat) + seq!['.', '.']
        + decimal(r.end_line as nat) + seq![':'] + decimal(r.end_column as nat)
}

/// A type that represents a span in the source code.
///
/// An implementation names the region that a span stands for and answers
/// the four questions in agreement with it: what is rendered for a span is
/// stated over its region.
pub trait Span {
    /// The region that this span stands for.
    spec fn region(&self) -> Region;

    /// The line on which the span starts, counted from one.
    fn start_line(&self) -> (line: usize)
        ensures
            line == self.region().start_line,
    ;

    /// The line on which the span ends, counted from one.
    fn end_line(&self) -> (line: usize)
        ensures
            line == self.region().end_line,
    ;

    /// The column of the first character of the span, counted from zero.
    fn start_column(&self) -> (column: usize)
        ensures
            column == self.region().start_column,
    ;

    /// The column just behind the last character of the span.
    fn end_column(&self) -> (column: usize)
        ensures
            column == self.region().end_column,
    ;

    /// Whether the span covers no character at all.
    fn is_empty(&self) -> (empty: bool)
        ensures
            empty == self.region().empty(),
    {
        self.start_line() == self.end_line() && self.start_column() == self.end_column()
    }

    /// Whether the span starts and ends on the same line.
    fn is_single_line(&self) -> (single: bool)
        ensures
            single == self.region().single_line(),
    {
        self.start_line() == self.end_line()
    }

    /// Returns the range of the span as a text: `start_line:start_column..end_line:end_column`,
    /// such as `1:7..1:10`.
    fn to_range(&self) -> (range: String)
        ensures
            range@ == range_text(self.region()),
    {
        let r = Region {
            start_line: self.start_line(),
            start_column: self.start_column(),
            end_line: self.end_line(),
            end_column: self.end_column(),
        };
        let mut range = String::new();
        push_range(&mut range, r);
        range
    }

    /// Renders the span against the text `code` that it points into: see
    /// [`debug_span`](crate::debug_span).
    fn debug(&self, code: &str) -> (out: String)
        requires
            can_render(self.region(), lines_of(code@)),
        ensures
            out@ == span_text(self.region(), lines_of(code@)),
    {
        let r = Region {
            start_line: self.start_line(),
            start_column: self.start_column(),
            end_line: self.end_line(),
            end_column: self.end_column(),
        };
        let lines = Lines::new(code);
        excerpt(r, &lines)
    }
}

impl Span for Region {
    open spec fn region(&self) -> Region {
        *self
    }

    fn start_line(&self) -> (line: usize) {
        self.start_line
    }

    fn end_line(&self) -> (line: usize) {
        self.end_line
    }

    fn start_column(&self) -> (column: usize) {
        self.start_column
    }

    fn end_column(&self) -> (column: usize) {
        self.end_column
    }
}

} // verus!
