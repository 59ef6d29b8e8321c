//! How messages and numbers are shown.

use crate::text::string_of;
use vstd::prelude::*;
use vstd::slice::slice_subrange;

verus! {

/// A piece of a message, marked by what it stands for. Whoever prints it
/// decides what the mark looks like.
pub enum Format<T> {
    Error(T),
    Warning(T),
    Good(T),
}

impl<T> Format<T> {
    /// What is marked.
    pub open spec fn content(&self) -> T {
        match *self {
            Format::Error(e) => e,
            Format::Warning(e) => e,
            Format::Good(e) => e,
        }
    }

    /// What is marked, without the mark.
    pub fn format(&self) -> (r: &T)
        ensures
            *r == self.content(),
    {
        match *self {
            Format::Error(ref e) => e,
            Format::Warning(ref e) => e,
            Format::Good(ref e) => e,
        }
    }
}

/// The character that shows the digit `d`.
pub open spec fn digit_char(d: int) -> char {
    if d == 0 {
        '0'
    } else if d == 1 {
        '1'
    } else if d == 2 {
        '2'
    } else if d == 3 {
        '3'
    } else if d == 4 {
        '4'
    } else if d == 5 {
        '5'
    } else if d == 6 {
        '6'
    } else if d == 7 {
        '7'
    } else if d == 8 {
        '8'
    } else {
        '9'
    }
}

/// The decimal digits of `n`, without leading zeros.
pub open spec fn decimal(n: nat) -> Seq<char>
    decreases n,
{
    if n < 10 {
        seq![digit_char(n as int)]
    } else {
        decimal(n / 10).push(digit_char((n % 10) as int))
    }
}

/// `digits` with `sep` between its groups of three, which are counted from
/// the right.
pub open spec fn grouped(digits: Seq<char>, sep: char) -> Seq<char>
    decreases digits.len(),
{
    if digits.len() <= 3 {
        digits
    } else {
        grouped(digits.take(digits.len() - 3), sep).push(sep) + digits.skip(digits.len() - 3)
    }
}

/// How the number `n` is shown: in decimal, with the thousands separator
/// `sep` if one is given.
pub open spec fn formatted(n: u64, sep: Option<char>) -> Seq<char> {
    match sep {
        Some(c) => grouped(decimal(n as nat), c),
        None => decimal(n as nat),
    }
}

/// The character that shows the digit `d`.
fn digit(d: u64) -> (c: char)
    requires
        d < 10,
    ensures
        c == digit_char(d as int),
{
    if d == 0 {
        '0'
    } else if d == 1 {
        '1'
    } else if d == 2 {
        '2'
    } else if d == 3 {
        '3'
    } else if d == 4 {
        '4'
    } else if d == 5 {
        '5'
    } else if d == 6 {
        '6'
    } else if d == 7 {
        '7'
    } else if d == 8 {
        '8'
    } else {
        '9'
    }
}

/// Appends the decimal digits of `n` to `out`.
fn push_decimal(n: u64, out: &mut Vec<char>)
    ensures
        final(out)@ == old(out)@ + decimal(n as nat),
    decreases n,
{
    if n >= 10 {
        push_decimal(n / 10, out);
    }
    out.push(digit(n % 10));
}

/// Appends `digits` to `out`, with `sep` between the groups of three.
fn push_grouped(digits: &[char], sep: char, out: &mut Vec<char>)
    ensures
        final(out)@ == old(out)@ + grouped(digits@, sep),
    decreases digits@.len(),
{
    let n: usize = digits.len();
    if n > 3 {
        push_grouped(slice_subrange(digits, 0, n - 3), sep, out);
        out.push(sep);
    }
    let mut i: usize = if n > 3 {
        n - 3
    } else {
        0
    };
    let ghost start = i;
    let ghost before = out@;
    while i < n
        invariant
            start <= i <= n,
            n == digits@.len(),
            out@ == before + digits@.subrange(start as int, i as int),
        decreases n - i,
    {
        out.push(digits[i]);
        i += 1;
    }
    assert(digits@.subrange(start as int, n as int) =~= digits@.skip(start as int));
    assert(digits@.skip(0) =~= digits@);
}

/// Shows the number `n` in decimal, with the thousands separator `sep` if
/// one is given: `1234567` with `,` is `1,234,567`.
pub fn format_number(n: u64, sep: Option<char>) -> (s: String)
    ensures
        s@ == formatted(n, sep),
{
    let mut digits: Vec<char> = Vec::new();
    push_decimal(n, &mut digits);
    match sep {
        Some(c) => {
            let mut out: Vec<char> = Vec::new();
            push_grouped(digits.as_slice(), c, &mut out);
            string_of(out.as_slice())
        },
        None => string_of(digits.as_slice()),
    }
}

} // verus!
