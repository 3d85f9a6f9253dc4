//! Numbers written as text: decimal digits, with an optional plus sign in
//! front and, where a file's content is read, white space behind.

use vstd::prelude::*;
use vstd::string::StrSliceExecFns;

verus! {

/// Whether `c` is one of the digits `0` to `9`.
pub open spec fn is_digit(c: char) -> bool {
    0x30 <= c as u32 <= 0x39
}

/// The number that a digit stands for.
pub open spec fn digit_value(c: char) -> nat {
    (c as u32 - 0x30) as nat
}

/// The number that a row of digits stands for, read in base ten.
pub open spec fn digits_value(digits: Seq<char>) -> nat
    decreases digits.len(),
{
    if digits.len() == 0 {
        0
    } else {
        10 * digits_value(digits.drop_last()) + digit_value(digits.last())
    }
}

/// Whether every character is a digit.
pub open spec fn all_digits(digits: Seq<char>) -> bool {
    forall|i: int| 0 <= i < digits.len() ==> is_digit(#[trigger] digits[i])
}

/// The number that a text stands for: one or more digits, with at most one
/// plus sign in front and nothing else. Any other text stands for no number.
pub open spec fn decimal_value(text: Seq<char>) -> Option<nat> {
    let digits = if text.len() > 0 && text[0] == '+' {
        text.skip(1)
    } else {
        text
    };
    if digits.len() > 0 && all_digits(digits) {
        Some(digits_value(digits))
    } else {
        None
    }
}

/// The number that a text stands for, if it is one and is at most `max`.
pub open spec fn bounded_value(text: Seq<char>, max: nat) -> Option<nat> {
    match decimal_value(text) {
        Some(value) => if value <= max {
            Some(value)
        } else {
            None
        },
        None => None,
    }
}

/// Whether `c` is white space: a blank, one of the control characters from
/// tab to carriage return, or one of the spaces beyond ASCII.
pub open spec fn is_white_space(c: char) -> bool {
    let code = c as u32;
    ||| code == 0x20
    ||| 0x09 <= code <= 0x0d
    ||| code == 0x85
    ||| code == 0xa0
    ||| code == 0x1680
    ||| 0x2000 <= code <= 0x200a
    ||| code == 0x2028
    ||| code == 0x2029
    ||| code == 0x202f
    ||| code == 0x205f
    ||| code == 0x3000
}

/// The length of a text without the white space at its end.
pub open spec fn trimmed_len(text: Seq<char>) -> nat
    decreases text.len(),
{
    if text.len() > 0 && is_white_space(text.last()) {
        trimmed_len(text.drop_last())
    } else {
        text.len()
    }
}

/// A text without the white space at its end.
pub open spec fn trim_end(text: Seq<char>) -> Seq<char> {
    text.take(trimmed_len(text) as int)
}

/// A row of digits stands for at least as much as any shorter beginning of it.
proof fn lemma_digits_value_grows(digits: Seq<char>, k: int)
    requires
        0 <= k <= digits.len(),
    ensures
        digits_value(digits.take(k)) <= digits_value(digits),
    decreases digits.len(),
{
    if k == digits.len() {
        assert(digits.take(k) =~= digits);
    } else {
        lemma_digits_value_grows(digits.drop_last(), k);
        assert(digits.drop_last().take(k) =~= digits.take(k));
    }
}

/// What is left of a text's length once the white space at its end is gone,
/// when looked for from position `end` down.
proof fn lemma_trimmed_len_from(text: Seq<char>, end: int)
    requires
        0 <= end <= text.len(),
        forall|i: int| end <= i < text.len() ==> is_white_space(#[trigger] text[i]),
    ensures
        trimmed_len(text) == trimmed_len(text.take(end)),
    decreases text.len() - end,
{
    if end == text.len() {
        assert(text.take(end) =~= text);
    } else {
        assert(is_white_space(text[text.len() - 1]));
        lemma_trimmed_len_from(text.drop_last(), end);
        assert(text.drop_last().take(end) =~= text.take(end));
    }
}

fn char_is_white_space(c: char) -> (white: bool)
    ensures
        white == is_white_space(c),
{
    let code: u32 = c as u32;
    code == 0x20 || (0x09 <= code && code <= 0x0d) || code == 0x85 || code == 0xa0 || code
        == 0x1680 || (0x2000 <= code && code <= 0x200a) || code == 0x2028 || code == 0x2029
        || code == 0x202f || code == 0x205f || code == 0x3000
}

/// Reads the first `end` characters of `text` as a number of at most `max`.
fn parse_prefix(text: &str, end: usize, max: u64) -> (value: Option<u64>)
    requires
        end <= text@.len(),
    ensures
        value matches Some(v) ==> bounded_value(text@.take(end as int), max as nat) == Some(
            v as nat,
        ),
        value is None ==> bounded_value(text@.take(end as int), max as nat) is None,
{
    let ghost whole = text@.take(end as int);
    let mut start: usize = 0;
    if end > 0 && text.get_char(0) as u32 == 0x2b {
        start = 1;
    }
    let ghost digits = whole.skip(start as int);
    assert(decimal_value(whole) == if digits.len() > 0 && all_digits(digits) {
        Some(digits_value(digits))
    } else {
        None
    }) by {
        assert('+' as u32 == 0x2b);
        if start == 0 {
            assert(whole.skip(0) =~= whole);
        }
    }
    if start == end {
        return None;
    }
    let mut value: u64 = 0;
    let mut at: usize = start;
    while at < end
        invariant
            start <= at <= end <= text@.len(),
            whole == text@.take(end as int),
            digits == whole.skip(start as int),
            decimal_value(whole) == if digits.len() > 0 && all_digits(digits) {
                Some(digits_value(digits))
            } else {
                None
            },
            all_digits(digits.take(at - start)),
            value == digits_value(digits.take(at - start)),
            value <= max,
        decreases end - at,
    {
        let code: u32 = text.get_char(at) as u32;
        let ghost seen = digits.take(at - start);
        let ghost more = digits.take(at - start + 1);
        assert(more.drop_last() =~= seen);
        assert(more.last() == text@[at as int]);
        if code < 0x30 || code > 0x39 {
            assert(!is_digit(digits[at - start]));
            return None;
        }
        let digit: u64 = (code - 0x30) as u64;
        assert(digits_value(more) == 10 * value + digit);
        if value > max / 10 || (value == max / 10 && digit > max % 10) {
            proof {
                lemma_digits_value_grows(digits, at - start + 1);
            }
            return None;
        }
        assert(all_digits(more)) by {
            assert forall|i: int| 0 <= i < more.len() implies is_digit(#[trigger] more[i]) by {
                if i < seen.len() {
                    assert(more[i] == seen[i]);
                }
            }
        }
        value = 10 * value + digit;
        at = at + 1;
    }
    assert(digits.take(at - start) =~= digits);
    Some(value)
}

/// Reads `text` as a 32-bit number.
pub fn parse_u32(text: &str) -> (value: Option<u32>)
    ensures
        value matches Some(v) ==> bounded_value(text@, u32::MAX as nat) == Some(v as nat),
        value is None ==> bounded_value(text@, u32::MAX as nat) is None,
{
    let end = text.unicode_len();
    assert(text@.take(end as int) =~= text@);
    match parse_prefix(text, end, u32::MAX as u64) {
        Some(v) => Some(v as u32),
        None => None,
    }
}

/// Reads `text` as a number of the machine's word size.
pub fn parse_usize(text: &str) -> (value: Option<usize>)
    ensures
        value matches Some(v) ==> bounded_value(text@, usize::MAX as nat) == Some(v as nat),
        value is None ==> bounded_value(text@, usize::MAX as nat) is None,
{
    let end = text.unicode_len();
    assert(text@.take(end as int) =~= text@);
    match parse_prefix(text, end, usize::MAX as u64) {
        Some(v) => Some(v as usize),
        None => None,
    }
}

/// Reads `text`, less the white space at its end, as a number of the
/// machine's word size.
pub fn parse_trimmed_usize(text: &str) -> (value: Option<usize>)
    ensures
        value matches Some(v) ==> bounded_value(trim_end(text@), usize::MAX as nat) == Some(
            v as nat,
        ),
        value is None ==> bounded_value(trim_end(text@), usize::MAX as nat) is None,
{
    let mut end: usize = text.unicode_len();
    while end > 0 && char_is_white_space(text.get_char(end - 1))
        invariant
            end <= text@.len(),
            forall|i: int| end <= i < text@.len() ==> is_white_space(#[trigger] text@[i]),
        decreases end,
    {
        end = end - 1;
    }
    proof {
        lemma_trimmed_len_from(text@, end as int);
        let head = text@.take(end as int);
        if end > 0 {
            assert(head.last() == text@[end - 1]);
        }
        assert(trimmed_len(head) == end);
        assert(trim_end(text@) == head);
    }
    match parse_prefix(text, end, usize::MAX as u64) {
        Some(v) => Some(v as usize),
        None => None,
    }
}

} // verus!
