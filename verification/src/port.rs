//! Port numbers and their textual form.

use vstd::prelude::*;
use vstd::string::*;

verus! {

/// The lowest port a scan may name.
pub const MIN_PORT: u16 = 1;

/// The highest port a scan may name.
pub const MAX_PORT: u16 = 65535;

/// The message for text that is not an unsigned 16-bit decimal number.
pub const NOT_A_NUMBER: &'static str = "Port isn't a number";

/// The message for a number that no port carries.
pub const INVALID_PORT: &'static str = "Invalid port number";

/// The byte of `+` in ASCII.
const ASCII_PLUS: u8 = 43;

/// The byte of `0` in ASCII.
const ASCII_ZERO: u8 = 48;

/// The byte of `9` in ASCII.
const ASCII_NINE: u8 = 57;

/// Whether `c` is one of the ten ASCII digits.
pub open spec fn is_digit(c: char) -> bool {
    '0' <= c <= '9'
}

/// The value of the ASCII digit `c`.
pub open spec fn digit_value(c: char) -> nat
    recommends
        is_digit(c),
{
    (c as int - '0' as int) as nat
}

/// Whether every character of `digits` is an ASCII digit.
pub open spec fn all_digits(digits: Seq<char>) -> bool {
    forall|i: int| 0 <= i < digits.len() ==> is_digit(#[trigger] digits[i])
}

/// The number that `digits` denotes in base ten, leading zeros allowed.
pub open spec fn decimal_value(digits: Seq<char>) -> nat
    recommends
        all_digits(digits),
    decreases digits.len(),
{
    if digits.len() == 0 {
        0
    } else {
        10 * decimal_value(digits.drop_last()) + digit_value(digits.last())
    }
}

/// `text` without the one `+` that may lead it.
pub open spec fn unsigned_part(text: Seq<char>) -> Seq<char> {
    if text.len() > 0 && text[0] == '+' {
        text.drop_first()
    } else {
        text
    }
}

/// Whether `text` is an optional `+` followed by one or more ASCII digits
/// and nothing else.
pub open spec fn is_decimal(text: Seq<char>) -> bool {
    unsigned_part(text).len() > 0 && all_digits(unsigned_part(text))
}

/// The unsigned 16-bit number that `text` denotes, if it denotes one.
pub open spec fn parsed_u16(text: Seq<char>) -> Option<u16> {
    if is_decimal(text) && decimal_value(unsigned_part(text)) <= u16::MAX {
        Some(decimal_value(unsigned_part(text)) as u16)
    } else {
        None
    }
}

/// A longer digit string denotes at least what any of its prefixes denotes.
proof fn lemma_decimal_value_grows(digits: Seq<char>, k: int)
    requires
        0 <= k <= digits.len(),
    ensures
        decimal_value(digits.take(k)) <= decimal_value(digits),
    decreases digits.len() - k,
{
    if k == digits.len() {
        assert(digits.take(k) == digits);
    } else {
        lemma_decimal_value_grows(digits, k + 1);
        assert(digits.take(k + 1).drop_last() == digits.take(k));
    }
}

/// Reads a port from its decimal text.
///
/// The text is an optional `+` and then ASCII digits only; no blanks, no
/// other sign, no separators. A number in `1..=65535` is the port. Zero is
/// answered with [`INVALID_PORT`], and everything that is not an unsigned
/// 16-bit number with [`NOT_A_NUMBER`].
pub fn validate_port(s: &str) -> (result: Result<u16, &'static str>)
    ensures
        match parsed_u16(s@) {
            Some(port) => if port >= MIN_PORT {
                result == Ok::<u16, &'static str>(port)
            } else {
                result matches Err(message) && message@ == INVALID_PORT@
            },
            None => result matches Err(message) && message@ == NOT_A_NUMBER@,
        },
{
    if !s.is_ascii() {
        proof {
            // A character outside ASCII is neither `+` nor a digit.
            let i = choose|i: int| 0 <= i < s@.len() && !('\0' <= #[trigger] s@[i] <= '\u{7f}');
            let digits = unsigned_part(s@);
            let at = if digits.len() == s@.len() {
                i
            } else {
                i - 1
            };
            assert(!is_digit(digits[at]));
        }
        return Err(NOT_A_NUMBER);
    }
    let bytes = s.as_bytes();
    let len = bytes.len();
    proof {
        // ASCII text has one byte for each character: the character's number.
        is_ascii_spec_bytes(s);
        assert(forall|k: int| 0 <= k < s@.len() ==> bytes@[k] == (#[trigger] s@[k]) as int);
    }
    let mut i: usize = 0;
    if len > 0 && bytes[0] == ASCII_PLUS {
        i = 1;
    }
    let ghost digits = unsigned_part(s@);
    let ghost skipped = i as int;
    if i == len {
        return Err(NOT_A_NUMBER);
    }
    let mut value: u32 = 0;
    while i < len
        invariant
            bytes@.len() == len == s@.len(),
            forall|k: int| 0 <= k < s@.len() ==> bytes@[k] == (#[trigger] s@[k]) as int,
            0 <= skipped <= i <= len,
            digits == unsigned_part(s@),
            digits == s@.skip(skipped),
            all_digits(digits.take(i - skipped)),
            value == decimal_value(digits.take(i - skipped)),
            value <= u16::MAX,
        decreases len - i,
    {
        let byte = bytes[i];
        assert(s@[i as int] == digits[i - skipped]);
        if byte < ASCII_ZERO || byte > ASCII_NINE {
            return Err(NOT_A_NUMBER);
        }
        assert(digits.take(i - skipped + 1).drop_last() == digits.take(i - skipped));
        value = value * 10 + (byte - ASCII_ZERO) as u32;
        if value > 65535u32 {
            proof {
                lemma_decimal_value_grows(digits, i - skipped + 1);
            }
            return Err(NOT_A_NUMBER);
        }
        i += 1;
    }
    assert(digits.take(i - skipped) == digits);
    if value < 1u32 {
        Err(INVALID_PORT)
    } else {
        Ok(value as u16)
    }
}

} // verus!
