//! What a client is set up with: the address of its store and the size of
//! its pool of connections.

use vstd::prelude::*;
use vstd::string::{StrSliceExecFns, StringExecFns};

verus! {

/// `text` ends in `suffix`.
pub open spec fn has_suffix(text: Seq<char>, suffix: Seq<char>) -> bool {
    text.len() >= suffix.len() && text.subrange(text.len() - suffix.len(), text.len() as int)
        == suffix
}

/// The mark at the end of an address that allows an unverified connection.
pub open spec fn insecure_marker() -> Seq<char> {
    "#insecure"@
}

/// An address with the mark at its end: itself where it has it, else with
/// the mark added.
pub open spec fn marked_insecure(url: Seq<char>) -> Seq<char> {
    if has_suffix(url, insecure_marker()) {
        url
    } else {
        url + insecure_marker()
    }
}

/// Whether `text` ends in `suffix`.
pub fn ends_with(text: &str, suffix: &str) -> (found: bool)
    ensures
        found == has_suffix(text@, suffix@),
{
    let length = text.unicode_len();
    let span = suffix.unicode_len();
    if length < span {
        return false;
    }
    let from = length - span;
    let mut i: usize = 0;
    while i < span
        invariant
            length == text@.len(),
            span == suffix@.len(),
            from == length - span,
            i <= span,
            forall|j: int| 0 <= j < i ==> text@[from + j] == suffix@[j],
        decreases span - i,
    {
        if text.get_char(from + i) != suffix.get_char(i) {
            assert(text@.subrange(from as int, length as int)[i as int] != suffix@[i as int]);
            return false;
        }
        i += 1;
    }
    assert(text@.subrange(from as int, length as int) =~= suffix@);
    true
}

/// The address under which the store is reached: `url`, marked as allowing
/// an unverified connection where it is not so marked already.
pub fn insecure_url(url: String) -> (marked: String)
    ensures
        marked@ == marked_insecure(url@),
{
    if ends_with(url.as_str(), "#insecure") {
        url
    } else {
        url.concat("#insecure")
    }
}

/// The pool size of a client that is given no usable hint.
pub const DEFAULT_POOL_SIZE: usize = 8;

/// `c` is one of the ten decimal digits.
pub open spec fn is_digit(c: char) -> bool {
    '0' <= c <= '9'
}

/// The number that a run of decimal digits writes.
pub open spec fn decimal_value(digits: Seq<char>) -> nat
    decreases digits.len(),
{
    if digits.len() == 0 {
        0
    } else {
        decimal_value(digits.drop_last()) * 10 + (digits.last() as nat - '0' as nat) as nat
    }
}

/// The digits of a number's text: the text itself, without the plus sign
/// that may stand before it.
pub open spec fn unsigned_digits(text: Seq<char>) -> Seq<char> {
    if text.len() > 0 && text[0] == '+' {
        text.skip(1)
    } else {
        text
    }
}

/// The size that `text` writes: an optional plus sign, then one or more
/// decimal digits and nothing else, for a number that a machine word holds.
pub open spec fn size_of_text(text: Seq<char>) -> Option<usize> {
    let digits = unsigned_digits(text);
    if digits.len() > 0 && (forall|i: int| 0 <= i < digits.len() ==> is_digit(#[trigger] digits[i]))
        && decimal_value(digits) <= usize::MAX {
        Some(decimal_value(digits) as usize)
    } else {
        None
    }
}

/// The pool size that a hint stands for: the size it writes, or the default
/// where there is no hint or it writes none.
pub open spec fn pool_size_of(hint: Option<Seq<char>>) -> usize {
    match hint {
        Some(text) => match size_of_text(text) {
            Some(size) => size,
            None => DEFAULT_POOL_SIZE,
        },
        None => DEFAULT_POOL_SIZE,
    }
}

/// More digits never write a smaller number.
proof fn lemma_decimal_value_grows(digits: Seq<char>, count: int)
    requires
        0 <= count <= digits.len(),
    ensures
        decimal_value(digits.take(count)) <= decimal_value(digits),
    decreases digits.len() - count,
{
    if count == digits.len() {
        assert(digits.take(count) =~= digits);
    } else {
        lemma_decimal_value_grows(digits, count + 1);
        assert(digits.take(count + 1).drop_last() =~= digits.take(count));
    }
}

/// Reads a size from `text`, as `size_of_text` says.
pub fn parse_size(text: &str) -> (size: Option<usize>)
    ensures
        size == size_of_text(text@),
{
    broadcast use vstd::string::is_ascii_spec_bytes;

    if !text.is_ascii() {
        proof {
            let at = choose|i: int| 0 <= i < text@.len() && !('\0' <= #[trigger] text@[i] <= '\u{7f}');
            let digits = unsigned_digits(text@);
            if text@[0] == '+' {
                assert(digits[at - 1] == text@[at]);
            }
        }
        return None;
    }
    let length = text.unicode_len();
    let start: usize = if length > 0 && text.get_ascii(0) == 43u8 {
        assert(text@[0] == '+');
        1
    } else {
        assert(length > 0 ==> text@[0] != '+');
        0
    };
    let ghost digits = unsigned_digits(text@);
    assert(digits =~= text@.skip(start as int));
    if start == length {
        return None;
    }
    let mut value: usize = 0;
    let mut i: usize = start;
    while i < length
        invariant
            text.is_ascii(),
            length == text@.len(),
            start <= i <= length,
            digits == text@.skip(start as int),
            digits == unsigned_digits(text@),
            forall|j: int| 0 <= j < i - start ==> is_digit(#[trigger] digits[j]),
            value == decimal_value(digits.take(i - start)),
        decreases length - i,
    {
        let byte = text.get_ascii(i);
        assert(digits[i - start] == text@[i as int]);
        assert(is_digit(text@[i as int]) <==> 48 <= byte <= 57);
        if byte < 48u8 || byte > 57u8 {
            assert(!is_digit(digits[i - start]));
            return None;
        }
        let digit = (byte - 48u8) as usize;
        proof {
            let longer = digits.take(i - start + 1);
            assert(longer.drop_last() =~= digits.take(i - start));
            assert(longer.last() == digits[i - start]);
            assert(decimal_value(longer) == value * 10 + digit);
            lemma_decimal_value_grows(digits, i - start + 1);
        }
        match value.checked_mul(10) {
            Some(tens) => match tens.checked_add(digit) {
                Some(next) => {
                    value = next;
                },
                None => {
                    return None;
                },
            },
            None => {
                return None;
            },
        }
        i += 1;
    }
    assert(digits.take(length - start) =~= digits);
    Some(value)
}

/// The size of the pool of connections, given the hint that the
/// environment holds, if it holds one.
pub fn pool_size(hint: Option<&str>) -> (size: usize)
    ensures
        size == pool_size_of(
            match hint {
                Some(text) => Some(text@),
                None => None,
            },
        ),
{
    match hint {
        Some(text) => match parse_size(text) {
            Some(size) => size,
            None => DEFAULT_POOL_SIZE,
        },
        None => DEFAULT_POOL_SIZE,
    }
}

} // verus!
