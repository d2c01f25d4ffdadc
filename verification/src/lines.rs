//! The lines of a text.
//!
//! A line ends at a line feed.  A carriage return that stands directly before
//! that line feed belongs to the line ending; any other carriage return is a
//! character of the line.  The last line needs no line feed behind it, and a
//! text that ends in a line feed has no empty line after it.

use vstd::prelude::*;

verus! {

/// The number of characters of `text` that stand before its first line feed:
/// the whole length where it has none.
pub open spec fn first_line_feed(text: Seq<char>) -> nat
    decreases text.len(),
{
    if text.len() == 0 || text[0] == '\n' {
        0
    } else {
        1 + first_line_feed(text.drop_first())
    }
}

/// `line` without the carriage return at its end, if it has one there.
pub open spec fn without_carriage_return(line: Seq<char>) -> Seq<char> {
    if line.len() > 0 && line.last() == '\r' {
        line.drop_last()
    } else {
        line
    }
}

/// The lines of `text`, in order, without their line endings.
pub open spec fn lines_of(text: Seq<char>) -> Seq<Seq<char>>
    decreases text.len(),
{
    let cut = first_line_feed(text);
    if text.len() == 0 {
        Seq::empty()
    } else if cut >= text.len() {
        seq![text]
    } else {
        seq![without_carriage_return(text.take(cut as int))] + lines_of(text.skip(cut as int + 1))
    }
}

/// The length of the longest of the lines `from..to` of `lines`, counted from
/// zero; zero where there is no such line.
pub open spec fn longest(lines: Seq<Seq<char>>, from: int, to: int) -> nat
    decreases to - from,
{
    if from >= to {
        0
    } else {
        let before = longest(lines, from, to - 1);
        if lines[to - 1].len() > before {
            lines[to - 1].len()
        } else {
            before
        }
    }
}

/// Where the first `cut` characters hold no line feed and a line feed or the
/// end of the text follows them, `cut` is where the first line ends.
pub proof fn lemma_first_line_feed(text: Seq<char>, cut: int)
    requires
        0 <= cut <= text.len(),
        forall|i: int| 0 <= i < cut ==> text[i] != '\n',
        cut < text.len() ==> text[cut] == '\n',
    ensures
        first_line_feed(text) == cut,
    decreases text.len(),
{
    if cut > 0 {
        let rest = text.drop_first();
        assert forall|i: int| 0 <= i < cut - 1 implies rest[i] != '\n' by {
            assert(rest[i] == text[i + 1]);
        }
        lemma_first_line_feed(rest, cut - 1);
    }
}

/// No line among `from..to` is longer than the longest of them.
pub proof fn lemma_longest_bounds(lines: Seq<Seq<char>>, from: int, to: int, at: int)
    requires
        from <= at < to,
    ensures
        lines[at].len() <= longest(lines, from, to),
    decreases to - from,
{
    if at < to - 1 {
        lemma_longest_bounds(lines, from, to - 1, at);
    }
}

/// The lines of a text, found once and then read by number.
pub struct Lines<'a> {
    code: &'a str,
    bounds: Vec<(usize, usize)>,
}

impl<'a> View for Lines<'a> {
    type V = Seq<Seq<char>>;

    /// The lines, in order, counted from zero.
    closed spec fn view(&self) -> Seq<Seq<char>> {
        lines_of(self.code@)
    }
}

impl<'a> Lines<'a> {
    /// For each line, in order, the positions in the text between which it
    /// stands.
    #[verifier::type_invariant]
    closed spec fn bounds_hold(&self) -> bool {
        &&& self.bounds@.len() == lines_of(self.code@).len()
        &&& forall|i: int|
            0 <= i < self.bounds@.len() ==> {
                &&& (#[trigger] self.bounds@[i]).0 <= self.bounds@[i].1 <= self.code@.len()
                &&& self.code@.subrange(self.bounds@[i].0 as int, self.bounds@[i].1 as int)
                    == lines_of(self.code@)[i]
            }
    }

    /// Finds the lines of `code`.
    pub fn new(code: &'a str) -> (lines: Lines<'a>)
        ensures
            lines@ == lines_of(code@),
    {
        let total = code.unicode_len();
        let mut bounds: Vec<(usize, usize)> = Vec::new();
        let mut start: usize = 0;
        let mut at: usize = 0;
        let mut after_carriage_return = false;
        let ghost text = code@;
        let ghost mut done: Seq<Seq<char>> = Seq::empty();
        proof {
            assert(text.skip(0) =~= text);
            assert(done + lines_of(text) =~= lines_of(text));
        }
        for c in chars: code.chars()
            invariant
                text == code@,
                chars.seq() == text,
                total == text.len(),
                at == chars.index(),
                start <= at <= total,
                forall|i: int| start <= i < at ==> text[i] != '\n',
                after_carriage_return == (start < at && text[at - 1] == '\r'),
                bounds@.len() == done.len(),
                forall|i: int|
                    0 <= i < bounds@.len() ==> {
                        &&& (#[trigger] bounds@[i]).0 <= bounds@[i].1 <= text.len()
                        &&& text.subrange(bounds@[i].0 as int, bounds@[i].1 as int) == done[i]
                    },
                lines_of(text) == done + lines_of(text.skip(start as int)),
        {
            assert(c == text[at as int]);
            if c == '\n' {
                let end = if after_carriage_return {
                    at - 1
                } else {
                    at
                };
                proof {
                    let rest = text.skip(start as int);
                    lemma_first_line_feed(rest, at - start);
                    assert(rest.take(at - start) =~= text.subrange(start as int, at as int));
                    assert(rest.skip(at - start + 1) =~= text.skip(at + 1));
                    let line = without_carriage_return(text.subrange(start as int, at as int));
                    assert(line =~= text.subrange(start as int, end as int));
                    assert(lines_of(rest) == seq![line] + lines_of(text.skip(at + 1)));
                    assert(done + (seq![line] + lines_of(text.skip(at + 1))) =~= done.push(line)
                        + lines_of(text.skip(at + 1)));
                    done = done.push(line);
                }
                bounds.push((start, end));
                start = at + 1;
                after_carriage_return = false;
            } else {
                after_carriage_return = c == '\r';
            }
            at = at + 1;
        }
        if start < total {
            proof {
                let rest = text.skip(start as int);
                lemma_first_line_feed(rest, total - start);
                assert(rest =~= text.subrange(start as int, total as int));
                assert(lines_of(rest) == seq![rest]);
                assert(done + seq![rest] =~= done.push(rest));
                done = done.push(rest);
            }
            bounds.push((start, total));
        } else {
            assert(lines_of(text.skip(start as int)) =~= Seq::empty());
            assert(done + Seq::<Seq<char>>::empty() =~= done);
        }
        Lines { code, bounds }
    }

    /// The number of lines.
    pub fn len(&self) -> (count: usize)
        ensures
            count == self@.len(),
    {
        proof {
            use_type_invariant(self);
        }
        self.bounds.len()
    }

    /// The line at `at`, counted from zero.
    pub fn get(&self, at: usize) -> (line: &'a str)
        requires
            at < self@.len(),
        ensures
            line@ == self@[at as int],
    {
        proof {
            use_type_invariant(self);
        }
        let (start, end) = self.bounds[at];
        self.code.substring_char(start, end)
    }

    /// The number of characters of the line at `at`, counted from zero.
    pub fn width(&self, at: usize) -> (width: usize)
        requires
            at < self@.len(),
        ensures
            width == self@[at as int].len(),
    {
        proof {
            use_type_invariant(self);
        }
        let (start, end) = self.bounds[at];
        end - start
    }

    /// The number of characters of the longest of the lines `from..to`,
    /// counted from zero.
    pub fn longest(&self, from: usize, to: usize) -> (widest: usize)
        requires
            from <= to <= self@.len(),
        ensures
            widest == longest(self@, from as int, to as int),
    {
        let mut widest: usize = 0;
        let mut at: usize = from;
        while at < to
            invariant
                from <= at <= to <= self@.len(),
                widest == longest(self@, from as int, at as int),
            decreases to - at,
        {
            let width = self.width(at);
            if width > widest {
                widest = width;
            }
            at = at + 1;
        }
        widest
    }
}

} // verus!
