//! Text primitives: decimal numerals, clock times and column fitting.
//!
//! Every function is specified over `Seq<char>`, the view of a string.

use vstd::prelude::*;

verus! {

/// Taken on trust from the standard library, not proved here:
/// `String::push` appends the one character to the end of the string and
/// leaves what was there before as it is.
pub assume_specification[ String::push ](s: &mut String, c: char)
    ensures
        final(s)@ == old(s)@.push(c),
;

/// The character for a single decimal digit.
pub open spec fn digit(d: nat) -> char
    recommends
        d < 10,
{
    if d == 0 {
        '0'
    } else if d == 1 {
        '1'
    } else if d == 2 {
        '2'
    } else if d == 3 {
        '3'
    } else if d == 4 {
        '4'
    } else if d == 5 {
        '5'
    } else if d == 6 {
        '6'
    } else if d == 7 {
        '7'
    } else if d == 8 {
        '8'
    } else {
        '9'
    }
}

/// The decimal numeral of `n`: most significant digit first, no leading
/// zeros, `"0"` for zero.
pub open spec fn decimal(n: nat) -> Seq<char>
    decreases n,
{
    if n < 10 {
        seq![digit(n)]
    } else {
        decimal(n / 10).push(digit(n % 10))
    }
}

/// `count` copies of `c`.
pub open spec fn repeated(c: char, count: nat) -> Seq<char> {
    Seq::new(count, |i: int| c)
}

/// `text` right-aligned in a field of `width` columns; text that is already
/// wider is left as it is.
pub open spec fn right_aligned(text: Seq<char>, width: nat) -> Seq<char> {
    if text.len() >= width {
        text
    } else {
        repeated(' ', (width - text.len()) as nat) + text
    }
}

/// A number in at least two digits, zero-padded on the left.
pub open spec fn two_digits(n: nat) -> Seq<char> {
    if n < 10 {
        seq!['0', digit(n)]
    } else {
        decimal(n)
    }
}

/// A duration in seconds as `MM:SS`, or `HH:MM:SS` from one hour on.
pub open spec fn clock(seconds: nat) -> Seq<char> {
    let h = seconds / 3600;
    let m = seconds / 60 % 60;
    let s = seconds % 60;
    if h == 0 {
        two_digits(m) + seq![':'] + two_digits(s)
    } else {
        two_digits(h) + seq![':'] + two_digits(m) + seq![':'] + two_digits(s)
    }
}

/// `text` cut or padded with spaces to exactly `columns` characters.
pub open spec fn fitted(text: Seq<char>, columns: nat) -> Seq<char> {
    if text.len() >= columns {
        text.take(columns as int)
    } else {
        text + repeated(' ', (columns - text.len()) as nat)
    }
}

/// Numbers below one hundred take at most two digits, so a two-digit field
/// is exactly two characters wide for them.
pub proof fn lemma_two_digits_len(n: nat)
    requires
        n < 100,
    ensures
        two_digits(n).len() == 2,
{
    if n >= 10 {
        assert(decimal(n) == decimal(n / 10).push(digit(n % 10)));
        assert(decimal(n / 10) == seq![digit(n / 10)]);
    }
}

/// Below one hour a clock time is five characters (`MM:SS`); from one hour
/// up to a hundred hours it is eight (`HH:MM:SS`).
pub proof fn lemma_clock_len(seconds: nat)
    requires
        seconds < 360_000,
    ensures
        seconds < 3600 ==> clock(seconds).len() == 5,
        seconds >= 3600 ==> clock(seconds).len() == 8,
{
    lemma_two_digits_len(seconds / 60 % 60);
    lemma_two_digits_len(seconds % 60);
    if seconds >= 3600 {
        lemma_two_digits_len(seconds / 3600);
    }
}

fn digit_char(d: u8) -> (c: char)
    requires
        d < 10,
    ensures
        c == digit(d as nat),
{
    if d == 0 {
        '0'
    } else if d == 1 {
        '1'
    } else if d == 2 {
        '2'
    } else if d == 3 {
        '3'
    } else if d == 4 {
        '4'
    } else if d == 5 {
        '5'
    } else if d == 6 {
        '6'
    } else if d == 7 {
        '7'
    } else if d == 8 {
        '8'
    } else {
        '9'
    }
}

/// Appends the decimal numeral of `n`.
pub fn push_decimal(out: &mut String, n: u128)
    ensures
        final(out)@ == old(out)@ + decimal(n as nat),
    decreases n,
{
    if n >= 10 {
        push_decimal(out, n / 10);
    }
    let d: u8 = (n % 10) as u8;
    out.push(digit_char(d));
}

/// Appends `count` copies of `c`.
pub fn push_repeated(out: &mut String, c: char, count: usize)
    ensures
        final(out)@ == old(out)@ + repeated(c, count as nat),
{
    let mut i: usize = 0;
    while i < count
        invariant
            i <= count,
            out@ == old(out)@ + repeated(c, i as nat),
        decreases count - i,
    {
        out.push(c);
        i += 1;
    }
}

/// Appends `n` in at least two digits.
pub fn push_two_digits(out: &mut String, n: u64)
    ensures
        final(out)@ == old(out)@ + two_digits(n as nat),
{
    if n < 10 {
        out.push('0');
        out.push(digit_char(n as u8));
    } else {
        push_decimal(out, n as u128);
    }
}

/// Appends `seconds` as a clock time.
pub fn push_clock(out: &mut String, seconds: u64)
    ensures
        final(out)@ == old(out)@ + clock(seconds as nat),
{
    let h: u64 = seconds / 3600;
    let m: u64 = seconds / 60 % 60;
    let s: u64 = seconds % 60;
    if h != 0 {
        push_two_digits(out, h);
        out.push(':');
    }
    push_two_digits(out, m);
    out.push(':');
    push_two_digits(out, s);
}

/// Formats a duration given in seconds: `MM:SS` below one hour, `HH:MM:SS`
/// from there on, each field in at least two digits.
pub fn ftime(seconds: usize) -> (text: String)
    ensures
        text@ == clock(seconds as nat),
{
    let mut text = String::new();
    push_clock(&mut text, seconds as u64);
    text
}

/// The characters of a string, in order.
pub fn chars_of(s: &str) -> (v: Vec<char>)
    ensures
        v@ == s@,
{
    let mut v: Vec<char> = Vec::new();
    for c in it: s.chars()
        invariant
            v@ == it.seq().take(it.index()),
            it.seq() == s@,
    {
        v.push(c);
    }
    v
}

/// Cuts or pads `text` with spaces to exactly `columns` characters.
pub fn fit(text: &str, columns: usize) -> (line: String)
    ensures
        line@ == fitted(text@, columns as nat),
{
    let chars = chars_of(text);
    let mut line = String::new();
    let mut i: usize = 0;
    while i < chars.len() && i < columns
        invariant
            i <= chars.len(),
            i <= columns,
            line@ == chars@.take(i as int),
        decreases chars.len() - i,
    {
        line.push(chars[i]);
        i += 1;
    }
    if chars.len() < columns {
        push_repeated(&mut line, ' ', columns - chars.len());
    }
    line
}

} // verus!
