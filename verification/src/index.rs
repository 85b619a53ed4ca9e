//! Reading a server index from its command-line text.

use vstd::prelude::*;
use vstd::utf8::{is_ascii_chars, is_ascii_chars_encode_utf8};
use crate::error::ClientError;

verus! {

/// The ASCII code of `+`.
const PLUS: u8 = 0x2b;

/// The ASCII code of `0`.
const ZERO: u8 = 0x30;

/// The ASCII code of `9`.
const NINE: u8 = 0x39;

/// Whether `c` is one of the ten ASCII digits.
pub open spec fn is_digit(c: char) -> bool {
    '0' <= c <= '9'
}

/// The digits of an index text: the text itself, without one leading `+`.
pub open spec fn digits_of(text: Seq<char>) -> Seq<char> {
    if text.len() > 0 && text[0] == '+' {
        text.subrange(1, text.len() as int)
    } else {
        text
    }
}

/// The number that a sequence of digits writes in base ten.
pub open spec fn decimal_value(digits: Seq<char>) -> nat
    decreases digits.len(),
{
    if digits.len() == 0 {
        0
    } else {
        (decimal_value(digits.drop_last()) * 10 + (digits.last() as nat - '0' as nat)) as nat
    }
}

/// The number that an index text writes.
pub open spec fn index_value(text: Seq<char>) -> nat {
    decimal_value(digits_of(text))
}

/// Whether `text` is an index: an optional `+`, then one or more digits
/// writing a number that fits in `usize`.
pub open spec fn is_index_text(text: Seq<char>) -> bool {
    let digits = digits_of(text);
    &&& digits.len() > 0
    &&& forall|i: int| 0 <= i < digits.len() ==> is_digit(#[trigger] digits[i])
    &&& decimal_value(digits) <= usize::MAX
}

/// A prefix of a digit sequence writes a number no greater than the whole.
proof fn lemma_prefix_value_le(digits: Seq<char>, n: int)
    requires
        0 <= n <= digits.len(),
        forall|i: int| 0 <= i < digits.len() ==> is_digit(#[trigger] digits[i]),
    ensures
        decimal_value(digits.take(n)) <= decimal_value(digits),
    decreases digits.len() - n,
{
    if n == digits.len() {
        assert(digits.take(n) =~= digits);
    } else {
        lemma_prefix_value_le(digits, n + 1);
        let longer = digits.take(n + 1);
        assert(longer.drop_last() =~= digits.take(n));
    }
}

/// Index text holds ASCII characters only.
proof fn lemma_index_text_is_ascii(text: Seq<char>)
    requires
        is_index_text(text),
    ensures
        is_ascii_chars(text),
{
    let digits = digits_of(text);
    assert forall|i: int| 0 <= i < text.len() implies '\0' <= #[trigger] text[i] <= '\u{7f}' by {
        if text[0] == '+' && i > 0 {
            assert(is_digit(digits[i - 1]));
        }
    }
}

/// Reads a server index. The text is an optional `+` followed by decimal
/// digits; anything else, or a number too large for `usize`, is refused
/// with `NonNumericIndex`.
pub fn parse_index(text: &str) -> (r: Result<usize, ClientError>)
    ensures
        is_index_text(text@) ==> r == Ok::<usize, ClientError>(index_value(text@) as usize),
        !is_index_text(text@) ==> r == Err::<usize, ClientError>(ClientError::NonNumericIndex),
{
    if !text.is_ascii() {
        proof {
            if is_index_text(text@) {
                lemma_index_text_is_ascii(text@);
            }
        }
        return Err(ClientError::NonNumericIndex);
    }
    proof {
        is_ascii_chars_encode_utf8(text@);
    }
    let len = text.as_bytes().len();
    let start: usize = if len > 0 && text.get_ascii(0) == PLUS {
        1
    } else {
        0
    };
    if start == len {
        return Err(ClientError::NonNumericIndex);
    }
    let ghost digits = digits_of(text@);
    let mut value: usize = 0;
    let mut i: usize = start;
    while i < len
        invariant
            start <= i <= len,
            len == text@.len(),
            text.is_ascii(),
            digits == digits_of(text@),
            digits.len() == len - start,
            forall|k: int| 0 <= k < digits.len() ==> digits[k] == text@[k + start],
            forall|k: int| 0 <= k < i - start ==> is_digit(#[trigger] digits[k]),
            value == decimal_value(digits.take(i - start)),
        decreases len - i,
    {
        let byte = text.get_ascii(i);
        if !(ZERO <= byte && byte <= NINE) {
            assert(!is_digit(digits[i - start]));
            return Err(ClientError::NonNumericIndex);
        }
        let digit: usize = (byte - ZERO) as usize;
        proof {
            let longer = digits.take(i - start + 1);
            assert(longer.drop_last() =~= digits.take(i - start));
        }
        let next = match value.checked_mul(10) {
            Some(scaled) => scaled.checked_add(digit),
            None => None,
        };
        match next {
            Some(n) => {
                value = n;
            },
            None => {
                proof {
                    if is_index_text(text@) {
                        lemma_prefix_value_le(digits, i - start + 1);
                    }
                }
                return Err(ClientError::NonNumericIndex);
            },
        }
        i = i + 1;
    }
    assert(digits.take(i - start) =~= digits);
    Ok(value)
}

} // verus!
