//! What the user types: a position in the listing, a task name.

use crate::task::{name_verdict, validate_name, NameError};
use vstd::prelude::*;
use vstd::string::*;

verus! {

/// White space: the characters with the Unicode property `White_Space`.
pub open spec fn is_space(c: char) -> bool {
    ||| '\u{9}' <= c <= '\u{d}'
    ||| c == ' '
    ||| c == '\u{85}'
    ||| c == '\u{a0}'
    ||| c == '\u{1680}'
    ||| '\u{2000}' <= c <= '\u{200a}'
    ||| c == '\u{2028}'
    ||| c == '\u{2029}'
    ||| c == '\u{202f}'
    ||| c == '\u{205f}'
    ||| c == '\u{3000}'
}

/// The text without the white space it starts with.
pub open spec fn skip_leading(text: Seq<char>) -> Seq<char>
    decreases text.len(),
{
    if text.len() > 0 && is_space(text[0]) {
        skip_leading(text.drop_first())
    } else {
        text
    }
}

/// The text without the white space it ends with.
pub open spec fn skip_trailing(text: Seq<char>) -> Seq<char>
    decreases text.len(),
{
    if text.len() > 0 && is_space(text.last()) {
        skip_trailing(text.drop_last())
    } else {
        text
    }
}

/// A line without the white space around it.
pub open spec fn trim_text(line: Seq<char>) -> Seq<char> {
    skip_trailing(skip_leading(line))
}

/// A decimal digit.
pub open spec fn is_digit(c: char) -> bool {
    '0' <= c <= '9'
}

/// Every character is a decimal digit.
pub open spec fn all_digits(text: Seq<char>) -> bool {
    forall|i: int| 0 <= i < text.len() ==> is_digit(#[trigger] text[i])
}

/// The number that a run of decimal digits writes.
pub open spec fn digits_value(text: Seq<char>) -> nat
    decreases text.len(),
{
    if text.len() == 0 {
        0
    } else {
        digits_value(text.drop_last()) * 10 + ((text.last() as u32 - '0' as u32) as nat)
    }
}

/// The text without one leading `+`, if it has one.
pub open spec fn unsigned_part(text: Seq<char>) -> Seq<char> {
    if text.len() > 0 && text[0] == '+' {
        text.subrange(1, text.len() as int)
    } else {
        text
    }
}

/// The position that a text writes: an optional `+`, then one or more decimal
/// digits whose number fits a `usize`.
pub open spec fn typed_position(text: Seq<char>) -> Option<usize> {
    let digits = unsigned_part(text);
    if digits.len() > 0 && all_digits(digits) && digits_value(digits) <= usize::MAX {
        Some(digits_value(digits) as usize)
    } else {
        None
    }
}

/// A run of digits writes at least the number that any of its prefixes writes.
pub proof fn lemma_prefix_value(text: Seq<char>, k: int)
    requires
        0 <= k <= text.len(),
    ensures
        digits_value(text.subrange(0, k)) <= digits_value(text),
    decreases text.len() - k,
{
    if k == text.len() {
        assert(text.subrange(0, k) =~= text);
    } else {
        lemma_prefix_value(text.drop_last(), k);
        assert(text.drop_last().subrange(0, k) =~= text.subrange(0, k));
    }
}

/// Exec form of [`is_space`].
pub fn is_white_space(c: char) -> (b: bool)
    ensures
        b == is_space(c),
{
    ('\u{9}' <= c && c <= '\u{d}') || c == ' ' || c == '\u{85}' || c == '\u{a0}' || c
        == '\u{1680}' || ('\u{2000}' <= c && c <= '\u{200a}') || c == '\u{2028}' || c
        == '\u{2029}' || c == '\u{202f}' || c == '\u{205f}' || c == '\u{3000}'
}

/// The line without the white space around it.
pub fn trimmed(line: &str) -> (text: &str)
    ensures
        text@ == trim_text(line@),
{
    let n: usize = line.unicode_len();
    let mut from: usize = 0;
    assert(line@.subrange(0, n as int) =~= line@);
    while from < n && is_white_space(line.get_char(from))
        invariant
            n == line@.len(),
            from <= n,
            skip_leading(line@) == skip_leading(line@.subrange(from as int, n as int)),
        decreases n - from,
    {
        assert(line@.subrange(from as int, n as int).drop_first() =~= line@.subrange(
            from + 1,
            n as int,
        ));
        from = from + 1;
    }
    let ghost rest = line@.subrange(from as int, n as int);
    assert(skip_leading(line@) == rest);
    let mut to: usize = n;
    while to > from && is_white_space(line.get_char(to - 1))
        invariant
            n == line@.len(),
            from <= to <= n,
            rest == line@.subrange(from as int, n as int),
            skip_trailing(rest) == skip_trailing(line@.subrange(from as int, to as int)),
        decreases to - from,
    {
        assert(line@.subrange(from as int, to as int).drop_last() =~= line@.subrange(
            from as int,
            to - 1,
        ));
        to = to - 1;
    }
    line.substring_char(from, to)
}

/// Reads a position from a text with nothing around the number.
pub fn parse_position(text: &str) -> (position: Option<usize>)
    ensures
        position == typed_position(text@),
{
    let n: usize = text.unicode_len();
    let start: usize = if n > 0 && text.get_char(0) == '+' {
        1
    } else {
        0
    };
    let ghost digits = unsigned_part(text@);
    if start == n {
        return None;
    }
    let mut value: usize = 0;
    let mut i: usize = start;
    assert(digits.subrange(0, 0) =~= Seq::<char>::empty());
    while i < n
        invariant
            n == text@.len(),
            start <= i <= n,
            start <= 1,
            digits == unsigned_part(text@),
            digits.len() == n - start,
            forall|k: int| 0 <= k < digits.len() ==> digits[k] == text@[k + start],
            forall|k: int| 0 <= k < i - start ==> is_digit(#[trigger] digits[k]),
            value == digits_value(digits.subrange(0, i - start)),
        decreases n - i,
    {
        let c: char = text.get_char(i);
        assert(c == digits[i - start]);
        if c < '0' || c > '9' {
            return None;
        }
        let d: usize = (c as u32 - '0' as u32) as usize;
        proof {
            let head = digits.subrange(0, i - start + 1);
            assert(head.drop_last() =~= digits.subrange(0, i - start));
            assert(head.last() == c);
            assert(digits_value(head) == value * 10 + d);
            lemma_prefix_value(digits, i - start + 1);
        }
        if value > (usize::MAX - d) / 10 {
            return None;
        }
        value = value * 10 + d;
        i = i + 1;
    }
    assert(digits.subrange(0, n - start) =~= digits);
    Some(value)
}

/// Reads the position that a typed line names, whitespace around it set
/// aside. `None` where the line names none.
pub fn read_position(line: &str) -> (position: Option<usize>)
    ensures
        position == typed_position(trim_text(line@)),
{
    parse_position(trimmed(line))
}

/// Reads a task name from a typed line, whitespace around it set aside, and
/// checks it.
pub fn read_name(line: &str) -> (name: Result<String, NameError>)
    ensures
        name_verdict(trim_text(line@)) matches Err(e) ==> name is Err && name->Err_0 == e,
        name_verdict(trim_text(line@)) is Ok ==> name is Ok && name->Ok_0@ == trim_text(line@),
{
    let text = trimmed(line);
    match validate_name(text) {
        Err(e) => Err(e),
        Ok(()) => Ok(text.to_owned()),
    }
}

/// Reads a description from a typed line, whitespace around it set aside.
pub fn read_description(line: &str) -> (description: String)
    ensures
        description@ == trim_text(line@),
{
    trimmed(line).to_owned()
}

} // verus!
