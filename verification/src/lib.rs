//! Renders a span of source text as an annotated excerpt: the lines that the
//! span covers, numbered in a left margin, with carets under a span that lies
//! on one line and a bracket drawn around a span that runs over several.
//!
//! A span on one line:
//!
//! ```text
//!  --> 1:7..1:10
//!   |
//! 1 | struct Foo;
//!   |        ^^^
//!   |
//! ```
//!
//! A span of several lines:
//!
//! ```text
//!  --> 1:11..4:1
//!   |
//!   |            ┌────╮
//! 1 | struct Foo {    │
//! 2 |     a: i32,     │
//! 3 |     b: i32,     │
//! 4 | }               │
//!   | └───────────────╯
//!   |
//! ```
//!
//! A span is anything that implements [`Span`]; [`Region`] is the plain record
//! of four numbers that every span stands for.  Columns and the lengths of
//! lines count characters.  Lines end at a line feed, with or without a
//! carriage return before it; no other line ending is known.

use vstd::prelude::*;

pub mod decimal;
pub mod internal;
pub mod laws;
pub mod layout;
pub mod lines;
pub mod render;
pub mod span;

pub use crate::span::Region;
pub use crate::span::Span;

use crate::layout::{can_render, span_text};
use crate::lines::{lines_of, Lines};
use crate::render::{excerpt, fits};

verus! {

/// Generates the excerpt for a span and the source text `code` that it
/// points into.
///
/// An empty span gives an empty text, whatever `code` holds.  Any other span
/// must fit `code`: its lines are lines of `code`, its end does not lie
/// before its start, and on a span of several lines the start column lies
/// no more than [`PADDING`](crate::layout::PADDING) behind the end of the
/// longest line and the end column is not zero and lies no more than one
/// further.  [`try_debug_span`] tests this first.
pub fn debug_span(span: impl Span, code: &str) -> (out: String)
    requires
        can_render(span.region(), lines_of(code@)),
    ensures
        out@ == span_text(span.region(), lines_of(code@)),
        span.region().empty() ==> out@ == Seq::<char>::empty(),
{
    internal::debug_span(&span, code)
}

/// Generates the excerpt for a span and the source text `code` where the
/// span fits the text, and nothing where it does not.
pub fn try_debug_span(span: impl Span, code: &str) -> (out: Option<String>)
    ensures
        can_render(span.region(), lines_of(code@)) ==> out is Some && out->0@ == span_text(
            span.region(),
            lines_of(code@),
        ),
        !can_render(span.region(), lines_of(code@)) ==> out is None,
{
    let r = internal::region_of(&span);
    let lines = Lines::new(code);
    if fits(r, &lines) {
        Some(excerpt(r, &lines))
    } else {
        None
    }
}

} // verus!
