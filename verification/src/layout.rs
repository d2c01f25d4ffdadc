//! What the rendered excerpt is, row by row.
//!
//! A *line* is a line of the source text, a *row* is a line of the output.
//! Every row starts with a gutter as wide as the number of the last line of
//! the span has digits.  The first row names the range; below it a blank row,
//! the rows that show the source, and a blank row again.

use crate::decimal::{decimal, repeated, right_aligned, spaces};
use crate::lines::longest;
use crate::span::{range_text, Region};
use vstd::prelude::*;

verus! {

/// The room between the longest line and the bar that closes the bracket on
/// the right.
pub const PADDING: usize = 3;

/// The width of the gutter: the number of digits of the last line's number.
pub open spec fn gutter_width(r: Region) -> nat {
    decimal(r.end_line as nat).len()
}

/// What parts the gutter from the text beside it.
pub open spec fn bar() -> Seq<char> {
    seq![' ', '|', ' ']
}

/// The number `n` as it stands in the gutter, with blanks before it.
pub open spec fn number_field(r: Region, n: nat) -> Seq<char> {
    right_aligned(decimal(n), gutter_width(r))
}

/// The first row: an arrow and the range of the span.
pub open spec fn range_row(r: Region) -> Seq<char> {
    spaces(gutter_width(r)) + seq!['-', '-', '>', ' '] + range_text(r)
}

/// A row that holds nothing but the gutter.
pub open spec fn blank_row(r: Region) -> Seq<char> {
    spaces(gutter_width(r)) + seq![' ', '|']
}

/// The row of carets under a span that lies on one line.
pub open spec fn marker_row(r: Region) -> Seq<char> {
    spaces(gutter_width(r)) + bar() + spaces(r.start_column as nat) + repeated(
        '^',
        (r.end_column - r.start_column) as nat,
    )
}

/// The row that shows the line on which the span starts.
pub open spec fn code_row(r: Region, lines: Seq<Seq<char>>) -> Seq<char> {
    number_field(r, r.start_line as nat) + bar() + lines[r.start_line - 1]
}

/// The length of the longest line that the span touches.
pub open spec fn widest(r: Region, lines: Seq<Seq<char>>) -> nat {
    longest(lines, r.start_line - 1, r.end_line as int)
}

/// The row above the lines of a span of several lines: the bracket opens
/// over the start column and runs to the right.
pub open spec fn top_row(r: Region, lines: Seq<Seq<char>>) -> Seq<char> {
    spaces(gutter_width(r)) + bar() + spaces(r.start_column as nat) + seq!['┌'] + repeated(
        '─',
        (widest(r, lines) + PADDING - r.start_column) as nat,
    ) + seq!['╮']
}

/// The row that shows line `n` of a span of several lines, filled with
/// blanks up to the bar on the right.
pub open spec fn boxed_row(r: Region, lines: Seq<Seq<char>>, n: int) -> Seq<char> {
    let line = lines[n - 1];
    number_field(r, n as nat) + bar() + line + spaces(
        (widest(r, lines) + PADDING + 1 - line.len()) as nat,
    ) + seq!['│']
}

/// The rows that show the lines of a span of several lines, first to last.
pub open spec fn boxed_rows(r: Region, lines: Seq<Seq<char>>) -> Seq<Seq<char>> {
    Seq::new((r.end_line - r.start_line + 1) as nat, |i: int| boxed_row(r, lines, r.start_line + i))
}

/// The row below the lines of a span of several lines: the bracket closes
/// under the end column.
pub open spec fn bottom_row(r: Region, lines: Seq<Seq<char>>) -> Seq<char> {
    spaces(gutter_width(r)) + bar() + spaces((r.end_column - 1) as nat) + seq!['└'] + repeated(
        '─',
        (widest(r, lines) + PADDING - r.end_column + 1) as nat,
    ) + seq!['╯']
}

/// The rows with a line feed between each two of them.
pub open spec fn joined(rows: Seq<Seq<char>>) -> Seq<char>
    decreases rows.len(),
{
    if rows.len() == 0 {
        Seq::empty()
    } else if rows.len() == 1 {
        rows[0]
    } else {
        joined(rows.drop_last()) + seq!['\n'] + rows.last()
    }
}

/// The rows with a line feed behind each of them.
pub open spec fn stacked(rows: Seq<Seq<char>>) -> Seq<char>
    decreases rows.len(),
{
    if rows.len() == 0 {
        Seq::empty()
    } else {
        stacked(rows.drop_last()) + rows.last() + seq!['\n']
    }
}

/// The rows for a span that lies on one line.
pub open spec fn single_line_rows(r: Region, lines: Seq<Seq<char>>) -> Seq<Seq<char>> {
    seq![range_row(r), blank_row(r), code_row(r, lines), marker_row(r), blank_row(r)]
}

/// The rows for a span of several lines.
pub open spec fn multi_line_rows(r: Region, lines: Seq<Seq<char>>) -> Seq<Seq<char>> {
    seq![range_row(r), blank_row(r), top_row(r, lines)] + boxed_rows(r, lines) + seq![
        bottom_row(r, lines),
        blank_row(r),
    ]
}

/// The rows of the excerpt: none for an empty span.
pub open spec fn span_rows(r: Region, lines: Seq<Seq<char>>) -> Seq<Seq<char>> {
    if r.empty() {
        Seq::empty()
    } else if r.single_line() {
        single_line_rows(r, lines)
    } else {
        multi_line_rows(r, lines)
    }
}

/// The excerpt as one text.
pub open spec fn span_text(r: Region, lines: Seq<Seq<char>>) -> Seq<char> {
    stacked(span_rows(r, lines))
}

/// The line on which the span starts is one of `lines`.
pub open spec fn has_start_line(r: Region, lines: Seq<Seq<char>>) -> bool {
    1 <= r.start_line <= lines.len()
}

/// The span does not end before the line on which it starts, and all its
/// lines are among `lines`.
pub open spec fn has_lines(r: Region, lines: Seq<Seq<char>>) -> bool {
    1 <= r.start_line <= r.end_line <= lines.len()
}

/// The bracket can open over the start column: the column lies no further
/// right than the bar that closes the bracket.
pub open spec fn top_fits(r: Region, lines: Seq<Seq<char>>) -> bool {
    has_lines(r, lines) && r.start_column <= widest(r, lines) + PADDING
}

/// The bracket can close under the end column: the column is not the first
/// of its line and lies no further right than the bar.
pub open spec fn bottom_fits(r: Region, lines: Seq<Seq<char>>) -> bool {
    has_lines(r, lines) && 1 <= r.end_column <= widest(r, lines) + PADDING + 1
}

/// The span can be shown against a text that has the lines `lines`.
pub open spec fn can_render(r: Region, lines: Seq<Seq<char>>) -> bool {
    if r.empty() {
        true
    } else if r.single_line() {
        r.start_column <= r.end_column && has_start_line(r, lines)
    } else {
        top_fits(r, lines) && bottom_fits(r, lines)
    }
}

/// One more row at the end adds the row and a line feed to the text.
pub proof fn lemma_stacked_push(rows: Seq<Seq<char>>, row: Seq<char>)
    ensures
        stacked(rows.push(row)) == stacked(rows) + row + seq!['\n'],
{
    assert(rows.push(row).drop_last() =~= rows);
}

/// The text of two runs of rows, one behind the other, is the text of the
/// first and behind it the text of the second.
pub proof fn lemma_stacked_add(first: Seq<Seq<char>>, second: Seq<Seq<char>>)
    ensures
        stacked(first + second) == stacked(first) + stacked(second),
    decreases second.len(),
{
    if second.len() == 0 {
        assert(first + second =~= first);
        assert(stacked(first) + stacked(second) =~= stacked(first));
    } else {
        assert((first + second).drop_last() =~= first + second.drop_last());
        lemma_stacked_add(first, second.drop_last());
        assert(stacked(first + second) =~= stacked(first) + stacked(second));
    }
}

/// Rows with a line feed behind each are the rows with a line feed between
/// them, and one more line feed at the end.
pub proof fn lemma_stacked_joined(rows: Seq<Seq<char>>)
    requires
        rows.len() > 0,
    ensures
        stacked(rows) == joined(rows) + seq!['\n'],
    decreases rows.len(),
{
    if rows.len() == 1 {
        assert(rows.drop_last() =~= Seq::<Seq<char>>::empty());
        assert(stacked(rows.drop_last()) =~= Seq::<char>::empty());
        assert(stacked(rows) =~= joined(rows) + seq!['\n']);
    } else {
        lemma_stacked_joined(rows.drop_last());
        assert(stacked(rows) =~= joined(rows) + seq!['\n']);
    }
}

} // verus!
