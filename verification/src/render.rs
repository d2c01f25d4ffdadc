//! Writing the rows of an excerpt for a region, each at the end of a text.
//!
//! The lines of the source are found once and handed to each writer, so that
//! all rows of one excerpt agree on the lines and on the longest of them.

use crate::decimal::{
    decimal, decimal_len, lemma_repeated_add, push_decimal, push_repeated, push_right_aligned,
    repeated, spaces,
};
use crate::layout::{
    bar, blank_row, bottom_fits, bottom_row, boxed_row, boxed_rows, can_render, code_row,
    has_lines, has_start_line, joined, lemma_stacked_add, lemma_stacked_joined,
    lemma_stacked_push, marker_row, multi_line_rows, range_row, single_line_rows, span_text,
    stacked, top_fits, top_row, widest, PADDING,
};
use crate::lines::{lemma_longest_bounds, Lines};
use crate::span::{range_text, Region};
use vstd::prelude::*;

verus! {

/// Writes the range of `r`: the start and the end, each as line, colon and
/// column, with two dots between them.
pub fn push_range(out: &mut String, r: Region)
    ensures
        final(out)@ == old(out)@ + range_text(r),
{
    proof {
        reveal_strlit(":");
        reveal_strlit("..");
    }
    push_decimal(out, r.start_line);
    out.append(":");
    push_decimal(out, r.start_column);
    out.append("..");
    push_decimal(out, r.end_line);
    out.append(":");
    push_decimal(out, r.end_column);
    assert(out@ =~= old(out)@ + range_text(r));
}

/// Writes the gutter without a number, and the bar behind it.
fn push_blank_gutter(out: &mut String, r: Region)
    ensures
        final(out)@ == old(out)@ + spaces(decimal(r.end_line as nat).len()) + bar(),
{
    proof {
        reveal_strlit(" ");
        reveal_strlit(" | ");
    }
    push_repeated(out, " ", decimal_len(r.end_line));
    out.append(" | ");
    assert(out@ =~= old(out)@ + spaces(decimal(r.end_line as nat).len()) + bar());
}

/// Writes the gutter with the number `n` in it, and the bar behind it.
fn push_numbered_gutter(out: &mut String, r: Region, n: usize)
    ensures
        final(out)@ == old(out)@ + crate::layout::number_field(r, n as nat) + bar(),
{
    proof {
        reveal_strlit(" | ");
    }
    push_right_aligned(out, n, decimal_len(r.end_line));
    out.append(" | ");
    assert(out@ =~= old(out)@ + crate::layout::number_field(r, n as nat) + bar());
}

/// Writes as many copies of the one character of `unit` as `longest + extra`
/// exceeds `taken`.
fn push_remainder(out: &mut String, unit: &str, longest: usize, extra: usize, taken: usize)
    requires
        unit@.len() == 1,
        taken <= longest + extra,
    ensures
        final(out)@ == old(out)@ + repeated(unit@[0], (longest + extra - taken) as nat),
{
    if taken <= longest {
        push_repeated(out, unit, longest - taken);
        push_repeated(out, unit, extra);
        proof {
            lemma_repeated_add(unit@[0], (longest - taken) as nat, extra as nat);
            assert(out@ =~= old(out)@ + (repeated(unit@[0], (longest - taken) as nat) + repeated(
                unit@[0],
                extra as nat,
            )));
        }
    } else {
        push_repeated(out, unit, extra - (taken - longest));
    }
}

/// Writes the first row of an excerpt: the range of the span behind an arrow.
pub fn push_range_row(out: &mut String, r: Region)
    ensures
        final(out)@ == old(out)@ + range_row(r),
{
    proof {
        reveal_strlit(" ");
        reveal_strlit("--> ");
    }
    push_repeated(out, " ", decimal_len(r.end_line));
    out.append("--> ");
    push_range(out, r);
    assert(out@ =~= old(out)@ + range_row(r));
}

/// Writes a row that holds only the gutter.
pub fn push_blank_row(out: &mut String, r: Region)
    ensures
        final(out)@ == old(out)@ + blank_row(r),
{
    proof {
        reveal_strlit(" ");
        reveal_strlit(" |");
    }
    push_repeated(out, " ", decimal_len(r.end_line));
    out.append(" |");
    assert(out@ =~= old(out)@ + blank_row(r));
}

/// Writes the row of carets: one under each character from the start column
/// up to the end column.
pub fn push_marker_row(out: &mut String, r: Region)
    requires
        r.start_column <= r.end_column,
    ensures
        final(out)@ == old(out)@ + marker_row(r),
{
    proof {
        reveal_strlit(" ");
        reveal_strlit("^");
    }
    push_blank_gutter(out, r);
    push_repeated(out, " ", r.start_column);
    push_repeated(out, "^", r.end_column - r.start_column);
    assert(out@ =~= old(out)@ + marker_row(r));
}

/// Writes the row that shows the line on which the span starts, with its
/// number in the gutter.
pub fn push_code_row(out: &mut String, r: Region, lines: &Lines)
    requires
        has_start_line(r, lines@),
    ensures
        final(out)@ == old(out)@ + code_row(r, lines@),
{
    push_numbered_gutter(out, r, r.start_line);
    out.append(lines.get(r.start_line - 1));
    assert(out@ =~= old(out)@ + code_row(r, lines@));
}

/// Writes the row above the lines of a span of several lines: the corner
/// over the start column, and the line from it to the corner on the right.
pub fn push_top_row(out: &mut String, r: Region, lines: &Lines)
    requires
        top_fits(r, lines@),
    ensures
        final(out)@ == old(out)@ + top_row(r, lines@),
{
    proof {
        reveal_strlit(" ");
        reveal_strlit("┌");
        reveal_strlit("─");
        reveal_strlit("╮");
    }
    let longest = lines.longest(r.start_line - 1, r.end_line);
    push_blank_gutter(out, r);
    push_repeated(out, " ", r.start_column);
    out.append("┌");
    push_remainder(out, "─", longest, PADDING, r.start_column);
    out.append("╮");
    assert(out@ =~= old(out)@ + top_row(r, lines@));
}

/// Writes the row below the lines of a span of several lines: the corner
/// under the end column, and the line from it to the corner on the right.
pub fn push_bottom_row(out: &mut String, r: Region, lines: &Lines)
    requires
        bottom_fits(r, lines@),
    ensures
        final(out)@ == old(out)@ + bottom_row(r, lines@),
{
    proof {
        reveal_strlit(" ");
        reveal_strlit("└");
        reveal_strlit("─");
        reveal_strlit("╯");
    }
    let longest = lines.longest(r.start_line - 1, r.end_line);
    push_blank_gutter(out, r);
    push_repeated(out, " ", r.end_column - 1);
    out.append("└");
    push_remainder(out, "─", longest, PADDING + 1, r.end_column);
    out.append("╯");
    assert(out@ =~= old(out)@ + bottom_row(r, lines@));
}

/// Writes the rows that show the lines of a span of several lines, each with
/// its number in the gutter and filled with blanks up to the bar on the
/// right, with a line feed between each two of them.
pub fn push_boxed_rows(out: &mut String, r: Region, lines: &Lines)
    requires
        has_lines(r, lines@),
    ensures
        final(out)@ == old(out)@ + joined(boxed_rows(r, lines@)),
{
    let ghost all = boxed_rows(r, lines@);
    let count = r.end_line - r.start_line + 1;
    let longest = lines.longest(r.start_line - 1, r.end_line);
    let mut done: usize = 0;
    assert(out@ =~= old(out)@ + joined(all.take(0)));
    while done < count
        invariant
            has_lines(r, lines@),
            all == boxed_rows(r, lines@),
            count == r.end_line - r.start_line + 1,
            longest == widest(r, lines@),
            done <= count,
            out@ == old(out)@ + joined(all.take(done as int)),
        decreases count - done,
    {
        let ghost before = out@;
        let number = r.start_line + done;
        proof {
            reveal_strlit(" ");
            reveal_strlit("│");
            reveal_strlit("\n");
            lemma_longest_bounds(lines@, r.start_line - 1, r.end_line as int, number - 1);
        }
        if done > 0 {
            out.append("\n");
        }
        push_numbered_gutter(out, r, number);
        out.append(lines.get(number - 1));
        push_remainder(out, " ", longest, PADDING + 1, lines.width(number - 1));
        out.append("│");
        proof {
            let row = boxed_row(r, lines@, number as int);
            let so_far = all.take(done + 1);
            assert(so_far.drop_last() =~= all.take(done as int));
            assert(so_far.last() == row);
            if done > 0 {
                assert(out@ =~= before + seq!['\n'] + row);
                assert(out@ =~= old(out)@ + joined(so_far));
            } else {
                assert(out@ =~= before + row);
                assert(joined(all.take(0)) =~= Seq::<char>::empty());
                assert(out@ =~= old(out)@ + joined(so_far));
            }
        }
        done = done + 1;
    }
    assert(all.take(count as int) =~= all);
}

/// The excerpt for a span that lies on one line: the range, the line with its
/// number, and the carets under the span, between two blank rows.
pub fn single_line(r: Region, lines: &Lines) -> (out: String)
    requires
        r.start_column <= r.end_column,
        has_start_line(r, lines@),
    ensures
        out@ == stacked(single_line_rows(r, lines@)),
{
    proof {
        reveal_strlit("\n");
    }
    let mut out = String::new();
    push_range_row(&mut out, r);
    out.append("\n");
    push_blank_row(&mut out, r);
    out.append("\n");
    push_code_row(&mut out, r, lines);
    out.append("\n");
    push_marker_row(&mut out, r);
    out.append("\n");
    push_blank_row(&mut out, r);
    out.append("\n");
    proof {
        let none = Seq::<Seq<char>>::empty();
        let one = none.push(range_row(r));
        let two = one.push(blank_row(r));
        let three = two.push(code_row(r, lines@));
        let four = three.push(marker_row(r));
        let five = four.push(blank_row(r));
        lemma_stacked_push(none, range_row(r));
        lemma_stacked_push(one, blank_row(r));
        lemma_stacked_push(two, code_row(r, lines@));
        lemma_stacked_push(three, marker_row(r));
        lemma_stacked_push(four, blank_row(r));
        assert(five =~= single_line_rows(r, lines@));
        assert(out@ =~= stacked(five));
    }
    out
}

/// The excerpt for a span of several lines: the range, and the lines with
/// their numbers inside a bracket that opens over the start column and
/// closes under the end column, between two blank rows.
pub fn multi_line(r: Region, lines: &Lines) -> (out: String)
    requires
        top_fits(r, lines@),
        bottom_fits(r, lines@),
    ensures
        out@ == stacked(multi_line_rows(r, lines@)),
{
    proof {
        reveal_strlit("\n");
    }
    let mut out = String::new();
    push_range_row(&mut out, r);
    out.append("\n");
    push_blank_row(&mut out, r);
    out.append("\n");
    push_top_row(&mut out, r, lines);
    out.append("\n");
    push_boxed_rows(&mut out, r, lines);
    out.append("\n");
    push_bottom_row(&mut out, r, lines);
    out.append("\n");
    push_blank_row(&mut out, r);
    out.append("\n");
    proof {
        let none = Seq::<Seq<char>>::empty();
        let one = none.push(range_row(r));
        let two = one.push(blank_row(r));
        let head = two.push(top_row(r, lines@));
        let body = boxed_rows(r, lines@);
        let foot_one = none.push(bottom_row(r, lines@));
        let foot = foot_one.push(blank_row(r));
        lemma_stacked_push(none, range_row(r));
        lemma_stacked_push(one, blank_row(r));
        lemma_stacked_push(two, top_row(r, lines@));
        lemma_stacked_push(none, bottom_row(r, lines@));
        lemma_stacked_push(foot_one, blank_row(r));
        lemma_stacked_joined(body);
        lemma_stacked_add(head, body);
        lemma_stacked_add(head + body, foot);
        assert(head + body + foot =~= multi_line_rows(r, lines@));
        assert(out@ =~= stacked(head) + stacked(body) + stacked(foot));
    }
    out
}

/// Whether the span can be shown against the lines: an empty span always; a
/// span on one line where that line is there and the end does not lie before
/// the start; a span of several lines where all its lines are there and both
/// corners of the bracket find room.
pub fn fits(r: Region, lines: &Lines) -> (ok: bool)
    ensures
        ok == can_render(r, lines@),
{
    if r.start_line == r.end_line && r.start_column == r.end_column {
        true
    } else if r.start_line == r.end_line {
        r.start_column <= r.end_column && 1 <= r.start_line && r.start_line <= lines.len()
    } else if 1 <= r.start_line && r.start_line <= r.end_line && r.end_line <= lines.len() {
        let longest = lines.longest(r.start_line - 1, r.end_line);
        let top = r.start_column <= longest || r.start_column - longest <= PADDING;
        let bottom = 1 <= r.end_column && (r.end_column <= longest || r.end_column - longest
            <= PADDING + 1);
        top && bottom
    } else {
        false
    }
}

/// The excerpt for the region `r` against the lines of a text: nothing for
/// an empty span, carets under a span on one line, a bracket around a span
/// of several lines.
pub fn excerpt(r: Region, lines: &Lines) -> (out: String)
    requires
        can_render(r, lines@),
    ensures
        out@ == span_text(r, lines@),
{
    if r.start_line == r.end_line && r.start_column == r.end_column {
        String::new()
    } else if r.start_line == r.end_line {
        single_line(r, lines)
    } else {
        multi_line(r, lines)
    }
}

} // verus!
