//! The rows of an excerpt, one function for each, and the functions that put
//! them together, for any kind of span.

use crate::layout::{
    blank_row, bottom_fits, bottom_row, boxed_rows, can_render, code_row, has_lines,
    has_start_line, joined, marker_row, multi_line_rows, range_row, single_line_rows, span_text,
    stacked, top_fits, top_row,
};
use crate::lines::{lines_of, Lines};
use crate::render::{
    excerpt, multi_line, push_blank_row, push_bottom_row, push_boxed_rows, push_code_row,
    push_marker_row, push_range_row, push_top_row, single_line,
};
use crate::span::{Region, Span};
use vstd::prelude::*;

verus! {

/// Reads the region that `span` stands for.
pub fn region_of<S: Span + ?Sized>(span: &S) -> (r: Region)
    ensures
        r == span.region(),
{
    Region {
        start_line: span.start_line(),
        start_column: span.start_column(),
        end_line: span.end_line(),
        end_column: span.end_column(),
    }
}

/// The excerpt for `span` against the text `code`: nothing for an empty
/// span, carets under a span on one line, a bracket around a span of several
/// lines.  The result depends on the region of the span and on the text, and
/// on nothing else.
pub fn debug_span<S: Span + ?Sized>(span: &S, code: &str) -> (out: String)
    requires
        can_render(span.region(), lines_of(code@)),
    ensures
        out@ == span_text(span.region(), lines_of(code@)),
        span.region().empty() ==> out@ == Seq::<char>::empty(),
{
    if span.is_empty() {
        debug_empty_span(span, code)
    } else if span.is_single_line() {
        debug_single_line_span(span, code)
    } else {
        debug_multi_line_span(span, code)
    }
}

/// The excerpt for an empty span: nothing at all, whatever the text.
pub fn debug_empty_span<S: Span + ?Sized>(_span: &S, _code: &str) -> (out: String)
    ensures
        out@ == Seq::<char>::empty(),
{
    String::new()
}

/// The excerpt for a span that lies on one line: the range, the line with its
/// number, and the carets under the span, between two blank rows.
pub fn debug_single_line_span<S: Span + ?Sized>(span: &S, code: &str) -> (out: String)
    requires
        span.region().start_column <= span.region().end_column,
        has_start_line(span.region(), lines_of(code@)),
    ensures
        out@ == stacked(single_line_rows(span.region(), lines_of(code@))),
{
    let lines = Lines::new(code);
    single_line(region_of(span), &lines)
}

/// The excerpt for a span of several lines: the range, and the lines with
/// their numbers inside a bracket that opens over the start column and
/// closes under the end column, between two blank rows.
pub fn debug_multi_line_span<S: Span + ?Sized>(span: &S, code: &str) -> (out: String)
    requires
        top_fits(span.region(), lines_of(code@)),
        bottom_fits(span.region(), lines_of(code@)),
    ensures
        out@ == stacked(multi_line_rows(span.region(), lines_of(code@))),
{
    let lines = Lines::new(code);
    multi_line(region_of(span), &lines)
}

/// The first row of an excerpt: the range of the span behind an arrow.
pub fn range_line<S: Span + ?Sized>(span: &S) -> (row: String)
    ensures
        row@ == range_row(span.region()),
{
    let mut row = String::new();
    push_range_row(&mut row, region_of(span));
    row
}

/// A row that holds only the gutter.
pub fn empty_line<S: Span + ?Sized>(span: &S) -> (row: String)
    ensures
        row@ == blank_row(span.region()),
{
    let mut row = String::new();
    push_blank_row(&mut row, region_of(span));
    row
}

/// The row of carets: one under each character from the start column up to
/// the end column.
pub fn marker_line<S: Span + ?Sized>(span: &S) -> (row: String)
    requires
        span.region().start_column <= span.region().end_column,
    ensures
        row@ == marker_row(span.region()),
{
    let mut row = String::new();
    push_marker_row(&mut row, region_of(span));
    row
}

/// The row that shows the line on which the span starts, with its number in
/// the gutter.
pub fn code_line<S: Span + ?Sized>(span: &S, code: &str) -> (row: String)
    requires
        has_start_line(span.region(), lines_of(code@)),
    ensures
        row@ == code_row(span.region(), lines_of(code@)),
{
    let lines = Lines::new(code);
    let mut row = String::new();
    push_code_row(&mut row, region_of(span), &lines);
    row
}

/// The row above the lines of a span of several lines: the corner over the
/// start column, and the line from it to the corner on the right.
pub fn start_line<S: Span + ?Sized>(span: &S, code: &str) -> (row: String)
    requires
        top_fits(span.region(), lines_of(code@)),
    ensures
        row@ == top_row(span.region(), lines_of(code@)),
{
    let lines = Lines::new(code);
    let mut row = String::new();
    push_top_row(&mut row, region_of(span), &lines);
    row
}

/// The rows that show the lines of a span of several lines, each with its
/// number in the gutter and filled with blanks up to the bar on the right,
/// with a line feed between each two of them.
pub fn code_lines<S: Span + ?Sized>(span: &S, code: &str) -> (rows: String)
    requires
        has_lines(span.region(), lines_of(code@)),
    ensures
        rows@ == joined(boxed_rows(span.region(), lines_of(code@))),
{
    let lines = Lines::new(code);
    let mut rows = String::new();
    push_boxed_rows(&mut rows, region_of(span), &lines);
    rows
}

/// The row below the lines of a span of several lines: the corner under the
/// end column, and the line from it to the corner on the right.
pub fn end_line<S: Span + ?Sized>(span: &S, code: &str) -> (row: String)
    requires
        bottom_fits(span.region(), lines_of(code@)),
    ensures
        row@ == bottom_row(span.region(), lines_of(code@)),
{
    let lines = Lines::new(code);
    let mut row = String::new();
    push_bottom_row(&mut row, region_of(span), &lines);
    row
}

} // verus!
