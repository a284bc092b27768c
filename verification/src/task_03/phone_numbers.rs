//! Phone numbers, in a simplified form.

use crate::decimal::{decimal, is_digit, parse_u64, parsed_u64, push_decimal, NumberError};
use crate::task_03::{Obfuscatable, Obfuscated};
use crate::text::{chars_of, joined, split, split_chars, texts_of};
use vstd::slice::slice_subrange;
use std::str::FromStr;
use vstd::prelude::*;

verus! {

/// A phone number in a simplified form: the groups of digits as numbers,
/// and whether a plus sign stands before them.
pub struct PhoneNumber {
    has_plus_prefix: bool,
    parts: Vec<u64>,
}

/// The mathematical model of a [`PhoneNumber`].
pub struct PhoneNumberParts {
    pub has_plus_prefix: bool,
    pub parts: Seq<u64>,
}

impl View for PhoneNumber {
    type V = PhoneNumberParts;

    closed spec fn view(&self) -> PhoneNumberParts {
        PhoneNumberParts { has_plus_prefix: self.has_plus_prefix, parts: self.parts@ }
    }
}

/// The number of plus signs with which `text` starts.
pub open spec fn leading_plus_signs(text: Seq<char>) -> nat
    decreases text.len(),
{
    if text.len() > 0 && text[0] == '+' {
        1 + leading_plus_signs(text.drop_first())
    } else {
        0
    }
}

/// The numbers that the pieces denote, or the error of the first piece that
/// is no number.
pub open spec fn parsed_numbers(pieces: Seq<Seq<char>>) -> Result<Seq<u64>, NumberError>
    decreases pieces.len(),
{
    if pieces.len() == 0 {
        Ok(Seq::<u64>::empty())
    } else {
        match parsed_numbers(pieces.drop_last()) {
            Err(error) => Err(error),
            Ok(numbers) => match parsed_u64(pieces.last()) {
                Err(error) => Err(error),
                Ok(number) => Ok(numbers.push(number)),
            },
        }
    }
}

/// The phone number that `text` denotes: after any plus signs at its start,
/// numbers with one space between each two.
pub open spec fn parsed_phone_number(text: Seq<char>) -> Result<PhoneNumberParts, NumberError> {
    let groups = split(text.skip(leading_plus_signs(text) as int), ' ');
    match parsed_numbers(groups) {
        Err(error) => Err(error),
        Ok(parts) => Ok(PhoneNumberParts { has_plus_prefix: leading_plus_signs(text) > 0, parts }),
    }
}

/// The decimal notations of the numbers.
pub open spec fn decimals(numbers: Seq<u64>) -> Seq<Seq<char>> {
    Seq::new(numbers.len(), |i: int| decimal(numbers[i] as nat))
}

/// The number of decimal digits in `text`.
pub open spec fn digits_in(text: Seq<char>) -> nat
    decreases text.len(),
{
    if text.len() == 0 {
        0
    } else if is_digit(text[0]) {
        digits_in(text.drop_first()) + 1
    } else {
        digits_in(text.drop_first())
    }
}

/// The number of digits at the end of a phone number that stay visible.
pub const NUMBER_OF_VISIBLE: usize = 4;

/// What is shown of a character that has `digits_after` digits behind it: a
/// digit stays only if it is one of the last four, any other character
/// becomes a hyphen.
pub open spec fn masked_char(c: char, digits_after: nat) -> char {
    if is_digit(c) {
        if digits_after < NUMBER_OF_VISIBLE {
            c
        } else {
            '*'
        }
    } else {
        '-'
    }
}

/// The text with each character masked.
pub open spec fn masked(text: Seq<char>) -> Seq<char> {
    Seq::new(text.len(), |i: int| masked_char(text[i], digits_in(text.skip(i + 1))))
}

/// The obfuscated form of a phone number: the plus sign where it has one,
/// and its groups of digits with hyphens between them, masked.
pub open spec fn obfuscated_phone_number(number: PhoneNumberParts) -> Seq<char> {
    let prefix = if number.has_plus_prefix {
        seq!['+']
    } else {
        Seq::<char>::empty()
    };
    prefix + masked(joined(decimals(number.parts), '-'))
}

impl PhoneNumber {
    /// Reads a phone number. Like that of e-mail addresses this is a simple
    /// reading, which knows nothing of the numbers that exist.
    pub fn from_str(s: &str) -> (number: Result<PhoneNumber, NumberError>)
        ensures
            number is Ok <==> parsed_phone_number(s@) is Ok,
            number matches Ok(phone_number) ==> parsed_phone_number(s@) == Ok::<
                PhoneNumberParts,
                NumberError,
            >(phone_number@),
            number matches Err(error) ==> parsed_phone_number(s@) == Err::<
                PhoneNumberParts,
                NumberError,
            >(error),
    {
        let chars = chars_of(s);
        let mut start: usize = 0;
        assert(chars@.skip(0) =~= chars@);
        while start < chars.len() && chars[start] == '+'
            invariant
                start <= chars.len(),
                leading_plus_signs(chars@) == start + leading_plus_signs(chars@.skip(start as int)),
            decreases chars.len() - start,
        {
            assert(chars@.skip(start as int).drop_first() =~= chars@.skip(start + 1));
            start += 1;
        }
        assert(chars@.subrange(start as int, chars.len() as int) =~= chars@.skip(start as int));
        let str_parts = split_chars(slice_subrange(chars.as_slice(), start, chars.len()), ' ');
        let ghost groups = split(s@.skip(leading_plus_signs(s@) as int), ' ');

        let mut parts: Vec<u64> = Vec::with_capacity(str_parts.len());

        let mut i: usize = 0;
        while i < str_parts.len()
            invariant
                i <= str_parts.len(),
                texts_of(str_parts@) == groups,
                groups == split(s@.skip(leading_plus_signs(s@) as int), ' '),
                parsed_numbers(groups.take(i as int)) == Ok::<Seq<u64>, NumberError>(parts@),
            decreases str_parts.len() - i,
        {
            proof {
                assert(groups.take(i + 1).drop_last() =~= groups.take(i as int));
                assert(groups.take(i + 1).last() == str_parts@[i as int]@);
            }
            let a_number = match parse_u64(str_parts[i].as_slice()) {
                Ok(a_number) => a_number,
                Err(error) => {
                    proof {
                        lemma_first_error_stays(groups, (i + 1) as nat);
                    }
                    return Err(error);
                },
            };
            parts.push(a_number);
            i += 1;
        }
        assert(groups.take(i as int) =~= groups);

        Ok(PhoneNumber { has_plus_prefix: start > 0, parts })
    }
}

/// Once a piece is no number, the pieces that follow do not change the
/// error.
pub proof fn lemma_first_error_stays(pieces: Seq<Seq<char>>, count: nat)
    requires
        count <= pieces.len(),
        parsed_numbers(pieces.take(count as int)) is Err,
    ensures
        parsed_numbers(pieces) == parsed_numbers(pieces.take(count as int)),
    decreases pieces.len() - count,
{
    if count < pieces.len() {
        assert(pieces.take(count as int + 1).drop_last() =~= pieces.take(count as int));
        lemma_first_error_stays(pieces, count + 1);
    } else {
        assert(pieces.take(count as int) =~= pieces);
    }
}

impl FromStr for PhoneNumber {
    type Err = NumberError;

    fn from_str(s: &str) -> (number: Result<Self, Self::Err>)
        ensures
            number is Ok <==> parsed_phone_number(s@) is Ok,
            number matches Ok(phone_number) ==> parsed_phone_number(s@) == Ok::<
                PhoneNumberParts,
                NumberError,
            >(phone_number@),
            number matches Err(error) ==> parsed_phone_number(s@) == Err::<
                PhoneNumberParts,
                NumberError,
            >(error),
    {
        PhoneNumber::from_str(s)
    }
}

impl Obfuscatable for PhoneNumber {

}

impl Obfuscated<PhoneNumber> {
    /// Appends the obfuscated form of the number to `f`.
    pub fn fmt(&self, f: &mut String)
        ensures
            final(f)@ == old(f)@ + obfuscated_phone_number(self.inner()@),
    {
        // the groups of digits, with hyphens between them
        let mut s: Vec<char> = Vec::new();
        let mut i: usize = 0;
        while i < self.0.parts.len()
            invariant
                i <= self.0.parts.len(),
                s@ == joined(decimals(self.0.parts@.take(i as int)), '-'),
            decreases self.0.parts.len() - i,
        {
            proof {
                let done = decimals(self.0.parts@.take(i as int));
                let next = decimals(self.0.parts@.take(i + 1));
                assert(next.drop_last() =~= done);
                assert(next.last() == decimal(self.0.parts@[i as int] as nat));
            }
            if i > 0 {
                s.push('-');
            }
            let ghost before = s@;
            push_decimal(self.0.parts[i] as u128, &mut s);
            assert(Seq::<char>::empty() + decimal(self.0.parts@[i as int] as nat) =~= decimal(
                self.0.parts@[i as int] as nat,
            ));
            i += 1;
        }
        assert(self.0.parts@.take(i as int) =~= self.0.parts@);

        // The visible digits are found from the end of the text, so the
        // masked text is written in reverse first and then turned round.
        let mut visible: usize = 0;
        let mut output: Vec<char> = Vec::with_capacity(s.len());
        let mut rest: usize = s.len();
        while rest > 0
            invariant
                rest <= s.len(),
                output.len() == s.len() - rest,
                visible <= NUMBER_OF_VISIBLE,
                visible == if digits_in(s@.skip(rest as int)) < NUMBER_OF_VISIBLE {
                    digits_in(s@.skip(rest as int))
                } else {
                    NUMBER_OF_VISIBLE as nat
                },
                forall|k: int|
                    0 <= k < output.len() ==> output@[k] == masked(s@)[s.len() - 1 - k],
            decreases rest,
        {
            rest -= 1;
            let ch = s[rest];
            proof {
                assert(s@.skip(rest as int).drop_first() =~= s@.skip(rest + 1));
            }
            if '0' <= ch && ch <= '9' {
                if visible < NUMBER_OF_VISIBLE {
                    output.push(ch);
                    visible += 1;
                } else {
                    output.push('*');
                }
            } else {
                output.push('-');
            }
        }

        let ghost before = f@;
        if self.0.has_plus_prefix {
            f.push('+');
        }
        let ghost prefixed = f@;
        let mut left: usize = output.len();
        while left > 0
            invariant
                left <= output.len(),
                output.len() == s.len(),
                forall|k: int|
                    0 <= k < output.len() ==> output@[k] == masked(s@)[s.len() - 1 - k],
                f@ == prefixed + masked(s@).take(output.len() - left),
            decreases left,
        {
            left -= 1;
            f.push(output[left]);
            assert(f@ =~= prefixed + masked(s@).take(output.len() - left));
        }
        assert(masked(s@).take(output.len() as int) =~= masked(s@));
        assert(f@ =~= before + obfuscated_phone_number(self.inner()@));
    }

    /// The obfuscated form of the number.
    pub fn to_string(&self) -> (text: String)
        ensures
            text@ == obfuscated_phone_number(self.inner()@),
    {
        let mut text = String::new();
        self.fmt(&mut text);
        assert(Seq::<char>::empty() + obfuscated_phone_number(self.inner()@)
            =~= obfuscated_phone_number(self.inner()@));
        text
    }
}

} // verus!
