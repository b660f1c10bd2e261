//! Decimal text of numbers.

use vstd::prelude::*;
use crate::string_pool::texts_of;

verus! {

/// `String::push`: the text afterwards is the text before with `ch` at its end.
pub assume_specification[ std::string::String::push ](s: &mut std::string::String, ch: char)
    ensures
        final(s)@ == old(s)@.push(ch),
;

/// The character of the digit `d`.
pub open spec fn digit(d: int) -> char {
    if d == 0 {
        '0'
    } else if d == 1 {
        '1'
    } else if d == 2 {
        '2'
    } else if d == 3 {
        '3'
    } else if d == 4 {
        '4'
    } else if d == 5 {
        '5'
    } else if d == 6 {
        '6'
    } else if d == 7 {
        '7'
    } else if d == 8 {
        '8'
    } else {
        '9'
    }
}

/// The decimal digits of `n`, without leading zeros.
pub open spec fn digits(n: nat) -> Seq<char>
    decreases n,
{
    if n < 10 {
        seq![digit(n as int)]
    } else {
        digits(n / 10).push(digit((n % 10) as int))
    }
}

/// The decimal text of `v`, with a minus sign if it is negative.
pub open spec fn decimal(v: int) -> Seq<char> {
    if v < 0 {
        seq!['-'] + digits((-v) as nat)
    } else {
        digits(v as nat)
    }
}

/// The character of a digit.
fn digit_char(d: u64) -> (c: char)
    requires
        d < 10,
    ensures
        c == digit(d as int),
{
    if d == 0 {
        '0'
    } else if d == 1 {
        '1'
    } else if d == 2 {
        '2'
    } else if d == 3 {
        '3'
    } else if d == 4 {
        '4'
    } else if d == 5 {
        '5'
    } else if d == 6 {
        '6'
    } else if d == 7 {
        '7'
    } else if d == 8 {
        '8'
    } else {
        '9'
    }
}

/// Appends the decimal digits of `n` to `text`.
pub fn push_digits(text: &mut String, n: u64)
    ensures
        final(text)@ == old(text)@ + digits(n as nat),
    decreases n,
{
    if n >= 10 {
        push_digits(text, n / 10);
    }
    let ghost before = text@;
    text.push(digit_char(n % 10));
    proof {
        if n >= 10 {
            assert(text@ =~= old(text)@ + digits(n as nat));
        } else {
            assert(text@ =~= old(text)@ + digits(n as nat));
        }
    }
}

/// Appends the decimal text of `v` to `text`.
pub fn push_decimal(text: &mut String, v: i64)
    ensures
        final(text)@ == old(text)@ + decimal(v as int),
{
    if v < 0 {
        text.push('-');
        let magnitude: u64 = ((-(v + 1)) as u64) + 1;
        push_digits(text, magnitude);
        assert(text@ =~= old(text)@ + decimal(v as int));
    } else {
        push_digits(text, v as u64);
    }
}

/// Appends the decimal text of `n` to `text`.
pub fn push_index(text: &mut String, n: usize)
    ensures
        final(text)@ == old(text)@ + digits(n as nat),
{
    push_digits(text, n as u64);
}

/// The decimal text of `v`.
pub fn decimal_text(v: i64) -> (text: String)
    ensures
        text@ == decimal(v as int),
{
    let mut text = String::new();
    push_decimal(&mut text, v);
    assert(text@ =~= decimal(v as int));
    text
}

/// The decimal text of an index.
pub open spec fn number_text(n: usize) -> Seq<char> {
    digits(n as nat)
}

/// The decimal text of a 32-bit number.
pub open spec fn signed_text(v: i32) -> Seq<char> {
    decimal(v as int)
}

/// `name` alone.
pub fn plain(name: &str) -> (r: String)
    ensures
        r@ == name@,
{
    String::from_str(name)
}

/// `name` followed by the decimal text of `first`.
pub fn with_index(name: &str, first: usize) -> (r: String)
    ensures
        r@ == name@ + number_text(first),
{
    let mut text = String::from_str(name);
    push_index(&mut text, first);
    text
}

/// `name` followed by the decimal text of `first`.
pub fn with_number(name: &str, first: i32) -> (r: String)
    ensures
        r@ == name@ + signed_text(first),
{
    let mut text = String::from_str(name);
    push_decimal(&mut text, first as i64);
    text
}

/// `name` followed by the decimal texts of `first` and `second` with `between` between
/// them.
pub fn with_indices(name: &str, first: usize, between: &str, second: usize) -> (r: String)
    ensures
        r@ == name@ + number_text(first) + between@ + number_text(second),
{
    let mut text = String::from_str(name);
    push_index(&mut text, first);
    text.append(between);
    push_index(&mut text, second);
    text
}

/// `name` followed by the decimal texts of `first` and `second` with `between` between
/// them.
pub fn with_index_and_number(name: &str, first: usize, between: &str, second: i32) -> (r: String)
    ensures
        r@ == name@ + number_text(first) + between@ + signed_text(second),
{
    let mut text = String::from_str(name);
    push_index(&mut text, first);
    text.append(between);
    push_decimal(&mut text, second as i64);
    text
}

/// `lines` from the place `from` on, added to `text`, with `separator` before each line
/// but the first of all.
pub open spec fn joined_from(
    lines: Seq<Seq<char>>,
    separator: Seq<char>,
    text: Seq<char>,
    from: int,
) -> Seq<char>
    decreases lines.len() - from,
{
    if from < 0 || from >= lines.len() {
        text
    } else if from == 0 {
        joined_from(lines, separator, text + lines[0], 1)
    } else {
        joined_from(lines, separator, text + separator + lines[from], from + 1)
    }
}

/// `lines` in a row with `separator` between them.
pub open spec fn joined(lines: Seq<Seq<char>>, separator: Seq<char>) -> Seq<char> {
    joined_from(lines, separator, Seq::empty(), 0)
}

/// `lines` in a row with `separator` between them.
pub fn join(lines: &Vec<String>, separator: &str) -> (r: String)
    ensures
        r@ == joined(texts_of(lines@), separator@),
{
    let mut text = String::new();
    let mut i: usize = 0;
    while i < lines.len()
        invariant
            i <= lines@.len(),
            joined(texts_of(lines@), separator@) == joined_from(
                texts_of(lines@),
                separator@,
                text@,
                i as int,
            ),
        decreases lines@.len() - i,
    {
        if i > 0 {
            text.append(separator);
        }
        text.append(lines[i].as_str());
        i += 1;
    }
    text
}

/// The views of a list with one more string.
pub proof fn lemma_texts_push(lines: Seq<String>, line: String)
    ensures
        texts_of(lines.push(line)) == texts_of(lines).push(line@),
{
    assert(texts_of(lines.push(line)) =~= texts_of(lines).push(line@));
}

} // verus!
