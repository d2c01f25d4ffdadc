//! What holds of every excerpt: where the gutter ends, where the carets
//! stand, and where the bracket closes.

use crate::decimal::{lemma_decimal_len_monotonic, spaces};
use crate::layout::{
    bar, blank_row, bottom_fits, bottom_row, boxed_row, boxed_rows, code_row, gutter_width,
    has_lines, has_start_line, marker_row, number_field, range_row, span_rows, span_text,
    top_fits, top_row, widest, PADDING,
};
use crate::lines::lemma_longest_bounds;
use crate::span::Region;
use vstd::prelude::*;

verus! {

/// The row starts with a gutter of the width that `r` asks for: in that
/// width blanks, or the number of a line of the span behind blanks; behind
/// it a blank and the bar or, in the row of the range, the arrow.
pub open spec fn has_gutter(row: Seq<char>, r: Region) -> bool {
    let width = gutter_width(r) as int;
    &&& row.len() >= width + 2
    &&& row.take(width) == spaces(width as nat) || exists|n: nat|
        r.start_line <= n <= r.end_line && row.take(width) == #[trigger] number_field(r, n)
    &&& row.subrange(width, width + 2) == seq![' ', '|'] || row.subrange(width, width + 2)
        == seq!['-', '-']
}

/// The column, counted from zero over the whole row, in which the bar on
/// the right of a bracket stands.
pub open spec fn bar_column(r: Region, lines: Seq<Seq<char>>) -> int {
    gutter_width(r) + 3 + widest(r, lines) + PADDING + 1
}

/// An empty span has no rows and no text, whatever the lines are.
pub proof fn lemma_empty_span_renders_nothing(r: Region, lines: Seq<Seq<char>>)
    requires
        r.empty(),
    ensures
        span_rows(r, lines).len() == 0,
        span_text(r, lines) == Seq::<char>::empty(),
{
}

/// The number of a line up to the last line of the span fills the gutter
/// exactly.
pub proof fn lemma_number_field_width(r: Region, n: nat)
    requires
        n <= r.end_line,
    ensures
        number_field(r, n).len() == gutter_width(r),
{
    lemma_decimal_len_monotonic(n, r.end_line as nat);
}

proof fn lemma_numbered_row_has_gutter(r: Region, n: nat, rest: Seq<char>)
    requires
        r.start_line <= n <= r.end_line,
    ensures
        has_gutter(number_field(r, n) + bar() + rest, r),
{
    let row = number_field(r, n) + bar() + rest;
    let width = gutter_width(r) as int;
    lemma_number_field_width(r, n);
    assert(row.take(width) =~= number_field(r, n));
    assert(row.subrange(width, width + 2) =~= seq![' ', '|']);
}

proof fn lemma_blank_row_has_gutter(r: Region, rest: Seq<char>)
    ensures
        has_gutter(spaces(gutter_width(r)) + bar() + rest, r),
        has_gutter(blank_row(r), r),
        has_gutter(range_row(r), r),
{
    let width = gutter_width(r) as int;
    let row = spaces(gutter_width(r)) + bar() + rest;
    assert(row.take(width) =~= spaces(width as nat));
    assert(row.subrange(width, width + 2) =~= seq![' ', '|']);
    assert(blank_row(r).take(width) =~= spaces(width as nat));
    assert(blank_row(r).subrange(width, width + 2) =~= seq![' ', '|']);
    assert(range_row(r).take(width) =~= spaces(width as nat));
    assert(range_row(r).subrange(width, width + 2) =~= seq!['-', '-']);
}

/// Gutter alignment: every row of an excerpt starts with a gutter as wide
/// as the number of the last line of the span has digits.
pub proof fn lemma_gutter_alignment(r: Region, lines: Seq<Seq<char>>)
    requires
        r.well_formed(),
    ensures
        forall|i: int|
            0 <= i < span_rows(r, lines).len() ==> has_gutter(#[trigger] span_rows(r, lines)[i], r),
{
    let rows = span_rows(r, lines);
    assert forall|i: int| 0 <= i < rows.len() implies has_gutter(#[trigger] rows[i], r) by {
        lemma_blank_row_has_gutter(r, Seq::empty());
        if r.single_line() {
            if i == 2 {
                lemma_numbered_row_has_gutter(r, r.start_line as nat, lines[r.start_line - 1]);
            } else if i == 3 {
                lemma_blank_row_has_gutter(
                    r,
                    marker_row(r).skip(gutter_width(r) as int + 3),
                );
                assert(marker_row(r) =~= spaces(gutter_width(r)) + bar() + marker_row(r).skip(
                    gutter_width(r) as int + 3,
                ));
            }
        } else {
            let body = boxed_rows(r, lines);
            if i == 2 {
                let rest = top_row(r, lines).skip(gutter_width(r) as int + 3);
                lemma_blank_row_has_gutter(r, rest);
                assert(top_row(r, lines) =~= spaces(gutter_width(r)) + bar() + rest);
            } else if 3 <= i < 3 + body.len() {
                let n = r.start_line + (i - 3);
                let row = boxed_row(r, lines, n);
                assert(rows[i] == body[i - 3]);
                let rest = row.skip(number_field(r, n as nat).len() as int + 3);
                lemma_numbered_row_has_gutter(r, n as nat, rest);
                assert(row =~= number_field(r, n as nat) + bar() + rest);
            } else if i == 3 + body.len() {
                let rest = bottom_row(r, lines).skip(gutter_width(r) as int + 3);
                lemma_blank_row_has_gutter(r, rest);
                assert(bottom_row(r, lines) =~= spaces(gutter_width(r)) + bar() + rest);
            }
        }
    }
}

/// Marker placement: under a span on one line, the row of carets is the
/// gutter, blanks up to the start column and carets from there up to the
/// end column, and the row above it shows the line from the same place on.
/// So where the span lies within the line, each caret stands under the
/// character of the line that it marks.
pub proof fn lemma_marker_placement(r: Region, lines: Seq<Seq<char>>)
    requires
        r.single_line(),
        r.start_column <= r.end_column,
        has_start_line(r, lines),
    ensures
        ({
            let text_at = gutter_width(r) + 3;
            let line = lines[r.start_line - 1];
            &&& marker_row(r).len() == text_at + r.end_column
            &&& forall|i: int| 0 <= i < text_at + r.start_column ==> marker_row(r)[i] != '^'
            &&& forall|i: int|
                text_at + r.start_column <= i < text_at + r.end_column ==> marker_row(r)[i] == '^'
            &&& code_row(r, lines).len() == text_at + line.len()
            &&& forall|i: int|
                text_at <= i < text_at + line.len() ==> code_row(r, lines)[i] == line[i - text_at]
        }),
{
    lemma_number_field_width(r, r.start_line as nat);
}

/// Vertical alignment: the rows that show the lines of a span all end in
/// the bar, and the bar stands in the same column in each of them, as far
/// right of the text as the longest line and the padding ask.  The corners
/// that close the bracket on the right stand in that column too.
pub proof fn lemma_bars_aligned(r: Region, lines: Seq<Seq<char>>)
    requires
        has_lines(r, lines),
    ensures
        boxed_rows(r, lines).len() == r.end_line - r.start_line + 1,
        forall|k: int|
            0 <= k < boxed_rows(r, lines).len() ==> {
                let row = #[trigger] boxed_rows(r, lines)[k];
                &&& row.len() == bar_column(r, lines) + 1
                &&& row[bar_column(r, lines)] == '│'
            },
        top_fits(r, lines) ==> top_row(r, lines).len() == bar_column(r, lines) + 1 && top_row(
            r,
            lines,
        )[bar_column(r, lines)] == '╮',
        bottom_fits(r, lines) ==> bottom_row(r, lines).len() == bar_column(r, lines) + 1
            && bottom_row(r, lines)[bar_column(r, lines)] == '╯',
{
    assert forall|k: int| 0 <= k < boxed_rows(r, lines).len() implies {
        let row = #[trigger] boxed_rows(r, lines)[k];
        &&& row.len() == bar_column(r, lines) + 1
        &&& row[bar_column(r, lines)] == '│'
    } by {
        let n = r.start_line + k;
        lemma_number_field_width(r, n as nat);
        lemma_longest_bounds(lines, r.start_line - 1, r.end_line as int, n - 1);
    }
}

} // verus!
