//! Numbers in decimal notation.

use crate::text::string_of;
use vstd::prelude::*;

verus! {

/// Whether `c` is one of the ten decimal digits.
pub open spec fn is_digit(c: char) -> bool {
    '0' <= c <= '9'
}

/// The value of the decimal digit `c`.
pub open spec fn digit_value(c: char) -> nat {
    (c as int - '0' as int) as nat
}

/// The decimal digit with the value `digit`, for a value below ten.
pub open spec fn digit_char(digit: nat) -> char {
    (digit + '0' as nat) as char
}

/// The decimal notation of `value`, without leading zeros.
pub open spec fn decimal(value: nat) -> Seq<char>
    decreases value,
{
    if value < 10 {
        seq![digit_char(value)]
    } else {
        decimal(value / 10).push(digit_char(value % 10))
    }
}

/// The number that a text of decimal digits denotes.
pub open spec fn decimal_value(digits: Seq<char>) -> nat
    decreases digits.len(),
{
    if digits.len() == 0 {
        0
    } else {
        10 * decimal_value(digits.drop_last()) + digit_value(digits.last())
    }
}

/// Whether `text` holds decimal digits only.
pub open spec fn is_digits(text: Seq<char>) -> bool {
    forall|i: int| 0 <= i < text.len() ==> is_digit(#[trigger] text[i])
}

/// The length of the longest prefix of `text` that holds digits only.
pub open spec fn leading_digits(text: Seq<char>) -> nat
    decreases text.len(),
{
    if text.len() > 0 && is_digit(text[0]) {
        1 + leading_digits(text.drop_first())
    } else {
        0
    }
}

/// The decimal notation holds digits only, and denotes the number it was
/// written for.
pub proof fn lemma_decimal(value: nat)
    ensures
        decimal(value).len() >= 1,
        is_digits(decimal(value)),
        decimal_value(decimal(value)) == value,
    decreases value,
{
    if value < 10 {
        assert(decimal(value).drop_last() =~= Seq::<char>::empty());
        assert(decimal_value(Seq::<char>::empty()) == 0);
    } else {
        lemma_decimal(value / 10);
        assert(decimal(value).drop_last() =~= decimal(value / 10));
    }
}

/// The decimal notation of the integer of the size `size`, with a minus
/// sign before it where it is negative.
pub open spec fn signed_decimal(negative: bool, size: nat) -> Seq<char> {
    if negative {
        seq!['-'] + decimal(size)
    } else {
        decimal(size)
    }
}

/// The decimal notation of an integer, with a minus sign before a negative
/// one.
pub open spec fn decimal_int(value: int) -> Seq<char> {
    signed_decimal(value < 0, magnitude(value))
}

/// Why a text is not the decimal notation of a number of 64 bits.
#[derive(Clone, Copy, Debug, PartialEq, Eq, Structural)]
pub enum NumberError {
    /// The text is empty.
    Empty,
    /// The text has a character that is no digit, or no digit at all.
    InvalidDigit,
    /// The number is too large.
    PosOverflow,
}

/// The text without the plus sign that may stand before the digits.
pub open spec fn unsigned_part(text: Seq<char>) -> Seq<char> {
    if text.len() > 0 && text[0] == '+' {
        text.drop_first()
    } else {
        text
    }
}

/// The number that `text` denotes: decimal digits, at least one, after an
/// optional plus sign. The text is read from the left, so a number that has
/// grown too large is reported before a character that is no digit.
pub open spec fn parsed_u64(text: Seq<char>) -> Result<u64, NumberError> {
    let digits = unsigned_part(text);
    let leading = digits.take(leading_digits(digits) as int);
    if text.len() == 0 {
        Err(NumberError::Empty)
    } else if digits.len() == 0 {
        Err(NumberError::InvalidDigit)
    } else if decimal_value(leading) > u64::MAX {
        Err(NumberError::PosOverflow)
    } else if leading.len() < digits.len() {
        Err(NumberError::InvalidDigit)
    } else {
        Ok(decimal_value(digits) as u64)
    }
}

/// Reading the decimal notation of a number gives the number back.
pub proof fn lemma_parse_of_decimal(number: u64)
    ensures
        parsed_u64(decimal(number as nat)) == Ok::<u64, NumberError>(number),
{
    let text = decimal(number as nat);
    lemma_decimal(number as nat);
    assert(is_digit(text[0]));
    assert(text.take(text.len() as int) =~= text);
    lemma_leading_digits(text, text.len());
}

/// Where the first `count` characters are digits, at least so many digits
/// lead the text, and exactly so many where the next character is no digit
/// or the text ends.
pub proof fn lemma_leading_digits(text: Seq<char>, count: nat)
    requires
        count <= text.len(),
        is_digits(text.take(count as int)),
    ensures
        count <= leading_digits(text) <= text.len(),
        count == text.len() || !is_digit(text[count as int]) ==> leading_digits(text) == count,
    decreases text.len(),
{
    if text.len() > 0 && is_digit(text[0]) {
        let rest = text.drop_first();
        if count > 0 {
            assert forall|i: int| 0 <= i < count - 1 implies is_digit(
                #[trigger] rest.take(count - 1)[i],
            ) by {
                assert(rest.take(count - 1)[i] == text.take(count as int)[i + 1]);
            }
            lemma_leading_digits(rest, (count - 1) as nat);
        } else {
            lemma_leading_digits(rest, 0);
        }
    } else if count > 0 {
        assert(is_digit(text.take(count as int)[0]));
    }
}

/// A longer prefix of a text of digits denotes no smaller number.
pub proof fn lemma_decimal_value_grows(digits: Seq<char>, shorter: nat, longer: nat)
    requires
        shorter <= longer <= digits.len(),
    ensures
        decimal_value(digits.take(shorter as int)) <= decimal_value(digits.take(longer as int)),
    decreases longer - shorter,
{
    if shorter < longer {
        lemma_decimal_value_grows(digits, shorter, (longer - 1) as nat);
        assert(digits.take(longer as int).drop_last() =~= digits.take(longer - 1));
    }
}

/// The size of an integer, without its sign.
pub open spec fn magnitude(value: int) -> nat {
    if value < 0 {
        (-value) as nat
    } else {
        value as nat
    }
}

/// The size of `value`, without its sign.
pub fn magnitude_of(value: i128) -> (size: u128)
    ensures
        size == magnitude(value as int),
{
    if value == i128::MIN {
        i128::MAX as u128 + 1
    } else if value < 0 {
        (-value) as u128
    } else {
        value as u128
    }
}

/// The decimal notation of the integer of the given size, negative or not.
pub fn decimal_string(negative: bool, size: u128) -> (text: String)
    ensures
        text@ == signed_decimal(negative, size as nat),
{
    let mut chars: Vec<char> = Vec::new();
    if negative {
        chars.push('-');
    }
    push_decimal(size, &mut chars);
    assert(Seq::<char>::empty() + decimal(size as nat) =~= decimal(size as nat));
    string_of(chars.as_slice())
}

/// Appends the decimal notation of `value` to `out`.
pub fn push_decimal(value: u128, out: &mut Vec<char>)
    ensures
        final(out)@ == old(out)@ + decimal(value as nat),
    decreases value,
{
    if value >= 10 {
        push_decimal(value / 10, out);
    }
    let digit = (value % 10) as u8;
    out.push((digit + 48) as char);
}

/// Reads `text` as a number: decimal digits after an optional plus sign.
pub fn parse_u64(text: &[char]) -> (number: Result<u64, NumberError>)
    ensures
        number == parsed_u64(text@),
{
    let len = text.len();
    if len == 0 {
        return Err(NumberError::Empty);
    }
    let start: usize = if text[0] == '+' {
        1
    } else {
        0
    };
    if start == len {
        return Err(NumberError::InvalidDigit);
    }
    let ghost digits = unsigned_part(text@);
    let mut value: u64 = 0;
    let mut i: usize = start;
    while i < len
        invariant
            start <= i <= len,
            len == text.len(),
            start <= 1,
            len > 0,
            digits == unsigned_part(text@),
            digits == text@.skip(start as int),
            is_digits(digits.take(i - start)),
            value == decimal_value(digits.take(i - start)),
        decreases len - i,
    {
        let c = text[i];
        proof {
            assert(digits[i - start] == c);
            lemma_leading_digits(digits, (i - start) as nat);
            assert(digits.take(i - start + 1).drop_last() =~= digits.take(i - start));
            assert(digits.take(i - start + 1).last() == c);
            if is_digit(c) {
                assert forall|j: int| 0 <= j < i - start + 1 implies is_digit(
                    #[trigger] digits.take(i - start + 1)[j],
                ) by {
                    if j < i - start {
                        assert(digits.take(i - start + 1)[j] == digits.take(i - start)[j]);
                    }
                }
            }
        }
        if !('0' <= c && c <= '9') {
            return Err(NumberError::InvalidDigit);
        }
        let digit = (c as u8 - 48) as u64;
        if value > (u64::MAX - digit) / 10 {
            proof {
                lemma_leading_digits(digits, (i - start + 1) as nat);
                lemma_decimal_value_grows(
                    digits,
                    (i - start + 1) as nat,
                    leading_digits(digits),
                );
            }
            return Err(NumberError::PosOverflow);
        }
        value = value * 10 + digit;
        i += 1;
    }
    proof {
        assert(digits.take(i - start) =~= digits);
        lemma_leading_digits(digits, digits.len());
    }
    Ok(value)
}

} // verus!
