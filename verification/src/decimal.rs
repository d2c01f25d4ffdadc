//! Numbers written in decimal, and runs of one character.

use vstd::prelude::*;

verus! {

/// The character that stands for a digit below ten.
pub open spec fn digit(d: nat) -> char {
    if d == 0 {
        '0'
    } else if d == 1 {
        '1'
    } else if d == 2 {
        '2'
    } else if d == 3 {
        '3'
    } else if d == 4 {
        '4'
    } else if d == 5 {
        '5'
    } else if d == 6 {
        '6'
    } else if d == 7 {
        '7'
    } else if d == 8 {
        '8'
    } else {
        '9'
    }
}

/// `n` written in decimal, without leading zeros.
pub open spec fn decimal(n: nat) -> Seq<char>
    decreases n,
{
    if n < 10 {
        seq![digit(n)]
    } else {
        decimal(n / 10).push(digit(n % 10))
    }
}

/// `count` copies of `c`.
pub open spec fn repeated(c: char, count: nat) -> Seq<char> {
    Seq::new(count, |i: int| c)
}

/// `count` blanks.
pub open spec fn spaces(count: nat) -> Seq<char> {
    repeated(' ', count)
}

/// `text` behind as many blanks as bring it to `width` characters; a text
/// that is wider already stays as it is.
pub open spec fn right_aligned(text: Seq<char>, width: nat) -> Seq<char> {
    if text.len() < width {
        spaces((width - text.len()) as nat) + text
    } else {
        text
    }
}

/// A decimal numeral has at least one digit.
pub proof fn lemma_decimal_nonempty(n: nat)
    ensures
        decimal(n).len() >= 1,
    decreases n,
{
    if n >= 10 {
        lemma_decimal_nonempty(n / 10);
    }
}

/// A larger number has no fewer digits.
pub proof fn lemma_decimal_len_monotonic(a: nat, b: nat)
    requires
        a <= b,
    ensures
        decimal(a).len() <= decimal(b).len(),
    decreases b,
{
    if a >= 10 {
        lemma_decimal_len_monotonic(a / 10, b / 10);
    } else if b >= 10 {
        lemma_decimal_nonempty(b / 10);
    }
}

/// Two runs of the same character, one behind the other, are one run.
pub proof fn lemma_repeated_add(c: char, a: nat, b: nat)
    ensures
        repeated(c, a) + repeated(c, b) == repeated(c, a + b),
{
    assert(repeated(c, a) + repeated(c, b) =~= repeated(c, a + b));
}

/// The one-character text of a digit.
fn digit_text(d: usize) -> (text: &'static str)
    requires
        d < 10,
    ensures
        text@ == seq![digit(d as nat)],
{
    proof {
        reveal_strlit("0");
        reveal_strlit("1");
        reveal_strlit("2");
        reveal_strlit("3");
        reveal_strlit("4");
        reveal_strlit("5");
        reveal_strlit("6");
        reveal_strlit("7");
        reveal_strlit("8");
        reveal_strlit("9");
    }
    let text = if d == 0 {
        "0"
    } else if d == 1 {
        "1"
    } else if d == 2 {
        "2"
    } else if d == 3 {
        "3"
    } else if d == 4 {
        "4"
    } else if d == 5 {
        "5"
    } else if d == 6 {
        "6"
    } else if d == 7 {
        "7"
    } else if d == 8 {
        "8"
    } else {
        "9"
    };
    assert(text@ =~= seq![digit(d as nat)]);
    text
}

/// Writes `n` in decimal at the end of `out`.
pub fn push_decimal(out: &mut String, n: usize)
    ensures
        final(out)@ == old(out)@ + decimal(n as nat),
    decreases n,
{
    if n >= 10 {
        push_decimal(out, n / 10);
    }
    out.append(digit_text(n % 10));
    assert(final(out)@ =~= old(out)@ + decimal(n as nat));
}

/// The number of digits of `n` in decimal.
pub fn decimal_len(n: usize) -> (len: usize)
    ensures
        len == decimal(n as nat).len(),
{
    let mut rest: usize = n;
    let mut len: usize = 1;
    while rest >= 10
        invariant
            len + rest <= n + 1,
            decimal(n as nat).len() == decimal(rest as nat).len() + len - 1,
        decreases rest,
    {
        rest = rest / 10;
        len = len + 1;
    }
    len
}

/// Writes `n` in decimal at the end of `out`, behind as many blanks as bring
/// it to `width` characters.
pub fn push_right_aligned(out: &mut String, n: usize, width: usize)
    ensures
        final(out)@ == old(out)@ + right_aligned(decimal(n as nat), width as nat),
{
    let digits = decimal_len(n);
    if digits < width {
        proof {
            reveal_strlit(" ");
        }
        push_repeated(out, " ", width - digits);
    }
    push_decimal(out, n);
    assert(out@ =~= old(out)@ + right_aligned(decimal(n as nat), width as nat));
}

/// Writes `count` copies of the one character of `unit` at the end of `out`.
pub fn push_repeated(out: &mut String, unit: &str, count: usize)
    requires
        unit@.len() == 1,
    ensures
        final(out)@ == old(out)@ + repeated(unit@[0], count as nat),
{
    let mut done: usize = 0;
    while done < count
        invariant
            done <= count,
            unit@.len() == 1,
            out@ == old(out)@ + repeated(unit@[0], done as nat),
        decreases count - done,
    {
        out.append(unit);
        done = done + 1;
        assert(out@ =~= old(out)@ + repeated(unit@[0], done as nat));
    }
}

} // verus!
