//! Decimal notation of unsigned 64-bit integers.

use vstd::prelude::*;
use vstd::string::*;

verus! {

/// The ASCII code of `+`.
const PLUS: u8 = 43;

/// The ASCII code of `0`.
const DIGIT_ZERO: u8 = 48;

/// The ASCII code of `9`.
const DIGIT_NINE: u8 = 57;

/// `c` is one of the ten ASCII digits.
pub open spec fn is_digit(c: char) -> bool {
    '0' <= c <= '9'
}

/// The number that the digit `c` stands for; 0 for any other character.
pub open spec fn digit_value(c: char) -> nat {
    if is_digit(c) {
        (c as int - '0' as int) as nat
    } else {
        0
    }
}

/// Every character of `s` is an ASCII digit.
pub open spec fn all_digits(s: Seq<char>) -> bool {
    forall|i: int| 0 <= i < s.len() ==> is_digit(#[trigger] s[i])
}

/// The number that the digit string `s` denotes in base ten; 0 for the empty
/// string. Leading zeros do not count.
pub open spec fn decimal_value(s: Seq<char>) -> nat
    decreases s.len(),
{
    if s.len() == 0 {
        0
    } else {
        10 * decimal_value(s.drop_last()) + digit_value(s.last())
    }
}

/// `s` without its leading plus sign, if it has one.
pub open spec fn without_sign(s: Seq<char>) -> Seq<char> {
    if s.len() > 0 && s[0] == '+' {
        s.drop_first()
    } else {
        s
    }
}

/// What `s` denotes as an unsigned 64-bit integer: an optional `+`, then one
/// or more ASCII digits whose value fits in 64 bits. Anything else (the empty
/// string, a lone sign, a minus sign, blanks, separators, digits of other
/// scripts, a value above `u64::MAX`) denotes nothing.
pub open spec fn parse_u64_spec(s: Seq<char>) -> Option<u64> {
    let digits = without_sign(s);
    if digits.len() > 0 && all_digits(digits) && decimal_value(digits) <= u64::MAX {
        Some(decimal_value(digits) as u64)
    } else {
        None
    }
}

/// A digit string denotes at least what any of its prefixes denotes.
pub proof fn lemma_decimal_value_prefix(s: Seq<char>, k: int)
    requires
        0 <= k <= s.len(),
    ensures
        decimal_value(s.subrange(0, k)) <= decimal_value(s),
    decreases s.len(),
{
    if k == s.len() {
        assert(s.subrange(0, k) =~= s);
    } else {
        assert(s.drop_last().subrange(0, k) =~= s.subrange(0, k));
        lemma_decimal_value_prefix(s.drop_last(), k);
    }
}

/// A string with a character outside ASCII denotes no number.
pub proof fn lemma_non_ascii_denotes_nothing(s: Seq<char>)
    requires
        !vstd::utf8::is_ascii_chars(s),
    ensures
        parse_u64_spec(s) is None,
{
    let i = choose|i: int| 0 <= i < s.len() && !('\0' <= #[trigger] s[i] <= '\u{7f}');
    let digits = without_sign(s);
    if digits.len() == s.len() {
        assert(!is_digit(digits[i]));
    } else {
        assert(s[0] == '+');
        assert(digits[i - 1] == s[i]);
        assert(!is_digit(digits[i - 1]));
    }
}

/// Reads `text` as an unsigned 64-bit integer in decimal notation.
///
/// Returns the number where `text` is an optional `+` followed by one or more
/// ASCII digits with a value of at most `u64::MAX`, and `None` for every other
/// text.
pub fn parse_u64(text: &str) -> (r: Option<u64>)
    ensures
        r == parse_u64_spec(text@),
{
    if !text.is_ascii() {
        proof {
            lemma_non_ascii_denotes_nothing(text@);
        }
        return None;
    }
    let bytes = text.as_bytes();
    proof {
        is_ascii_spec_bytes(text);
    }
    let len: usize = bytes.len();
    let start: usize = if len > 0 && bytes[0] == PLUS {
        1
    } else {
        0
    };
    let ghost digits = without_sign(text@);
    assert(digits =~= text@.subrange(start as int, len as int));
    if start == len {
        return None;
    }
    let mut value: u64 = 0;
    let mut i: usize = start;
    while i < len
        invariant
            start <= i <= len,
            len == bytes@.len(),
            len == text@.len(),
            digits == without_sign(text@),
            digits.len() == len - start,
            forall|j: int| 0 <= j < len ==> bytes@[j] == (#[trigger] text@[j]) as u8,
            forall|j: int| 0 <= j < len ==> '\0' <= (#[trigger] text@[j]) <= '\u{7f}',
            forall|j: int| 0 <= j < digits.len() ==> #[trigger] digits[j] == text@[start + j],
            all_digits(digits.subrange(0, i - start)),
            value == decimal_value(digits.subrange(0, i - start)),
        decreases len - i,
    {
        let byte: u8 = bytes[i];
        let ghost c: char = text@[i as int];
        assert(c == digits[i - start]);
        if byte < DIGIT_ZERO || byte > DIGIT_NINE {
            assert(!is_digit(c));
            return None;
        }
        let digit: u64 = (byte - DIGIT_ZERO) as u64;
        proof {
            let next = digits.subrange(0, i - start + 1);
            assert(next.drop_last() =~= digits.subrange(0, i - start));
            assert(decimal_value(next) == 10 * value + digit);
            lemma_decimal_value_prefix(digits, i - start + 1);
        }
        let scaled: u64 = match value.checked_mul(10) {
            Some(scaled) => scaled,
            None => {
                return None;
            },
        };
        value = match scaled.checked_add(digit) {
            Some(sum) => sum,
            None => {
                return None;
            },
        };
        i += 1;
    }
    assert(digits.subrange(0, i - start) =~= digits);
    Some(value)
}

} // verus!
