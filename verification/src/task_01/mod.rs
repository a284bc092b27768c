//! Integers as ordinal numbers: `1st`, `2nd`, `3rd`, `4th` and so on.

pub mod simple;
pub mod wrapped;
pub mod wrapped2;

use crate::decimal::{decimal, decimal_int, digit_char, magnitude};
use crate::integer::Integer;
use crate::text::{chars_of, ends_with};
use vstd::prelude::*;

verus! {

/// The two letters that follow an integer written as an ordinal number. They
/// go by the last digit, but for the numbers that end in 11, 12 and 13. The
/// sign plays no part.
pub open spec fn ordinal_suffix(value: int) -> Seq<char> {
    let size = magnitude(value);
    if size % 10 == 1 && size % 100 != 11 {
        seq!['s', 't']
    } else if size % 10 == 2 && size % 100 != 12 {
        seq!['n', 'd']
    } else if size % 10 == 3 && size % 100 != 13 {
        seq!['r', 'd']
    } else {
        seq!['t', 'h']
    }
}

/// An integer written as an ordinal number: its decimal notation and its
/// suffix.
pub open spec fn ordinal_text(value: int) -> Seq<char> {
    decimal_int(value) + ordinal_suffix(value)
}

/// The decimal notation of an integer ends with the digit of its units, and
/// before that stands the digit of its tens where it has one.
pub proof fn lemma_decimal_ending(value: int)
    ensures
        decimal_int(value).len() >= 1,
        decimal_int(value).last() == digit_char(magnitude(value) % 10),
        magnitude(value) >= 10 ==> decimal_int(value).len() >= 2 && decimal_int(value)[decimal_int(
            value,
        ).len() - 2] == digit_char((magnitude(value) / 10) % 10),
        magnitude(value) < 10 ==> decimal_int(value).len() == 1 || (decimal_int(value).len() == 2
            && decimal_int(value)[0] == '-'),
{
    let size = magnitude(value);
    assert(decimal(size).len() >= 1 && decimal(size).last() == digit_char(size % 10) && (size
        >= 10 ==> decimal(size).len() >= 2 && decimal(size)[decimal(size).len() - 2] == digit_char(
        (size / 10) % 10,
    )) && (size < 10 ==> decimal(size).len() == 1)) by {
        if size >= 10 {
            let tens = size / 10;
            assert(decimal(tens).len() >= 1 && decimal(tens).last() == digit_char(tens % 10)) by {
                if tens >= 10 {
                    assert(decimal(tens) == decimal(tens / 10).push(digit_char(tens % 10)));
                }
            }
        }
    }
}

/// The decimal notation of an integer ends with a given digit exactly where
/// that is the digit of its units, and with a one and a given digit exactly
/// where the integer ends in ten and that digit.
pub proof fn lemma_ordinal_ending(value: int, digit: nat)
    requires
        digit < 10,
    ensures
        seq![digit_char(digit)].is_suffix_of(decimal_int(value)) <==> magnitude(value) % 10
            == digit,
        seq!['1', digit_char(digit)].is_suffix_of(decimal_int(value)) <==> magnitude(value) % 100
            == 10 + digit,
{
    lemma_decimal_ending(value);
    let text = decimal_int(value);
    let size = magnitude(value);
    let one = seq![digit_char(digit)];
    let two = seq!['1', digit_char(digit)];
    assert(one.is_suffix_of(text) <==> text.last() == digit_char(digit)) by {
        if text.last() == digit_char(digit) {
            assert(one =~= text.subrange(text.len() - 1, text.len() as int));
        } else {
            assert(text.subrange(text.len() - 1, text.len() as int)[0] == text.last());
        }
    }
    assert(two.is_suffix_of(text) <==> text.len() >= 2 && text[text.len() - 2] == '1'
        && text.last() == digit_char(digit)) by {
        if text.len() >= 2 {
            let ending = text.subrange(text.len() - 2, text.len() as int);
            assert(ending[0] == text[text.len() - 2]);
            assert(ending[1] == text.last());
            if text[text.len() - 2] == '1' && text.last() == digit_char(digit) {
                assert(two =~= ending);
            }
        }
    }
    assert(digit_char(1) == '1');
}

/// Appends `value` to `f`, written as an ordinal number.
pub fn write_ordinal<T: Integer>(value: T, f: &mut String)
    ensures
        final(f)@ == old(f)@ + ordinal_text(value.value()),
{
    let s = value.to_decimal();
    let digits = chars_of(s.as_str());
    proof {
        lemma_ordinal_ending(value.value(), 1);
        lemma_ordinal_ending(value.value(), 2);
        lemma_ordinal_ending(value.value(), 3);
        reveal_strlit("1");
        reveal_strlit("2");
        reveal_strlit("3");
        reveal_strlit("11");
        reveal_strlit("12");
        reveal_strlit("13");
        reveal_strlit("st");
        reveal_strlit("nd");
        reveal_strlit("rd");
        reveal_strlit("th");
    }
    let suffix = if ends_with(digits.as_slice(), "1") && !ends_with(digits.as_slice(), "11") {
        "st"
    } else if ends_with(digits.as_slice(), "2") && !ends_with(digits.as_slice(), "12") {
        "nd"
    } else if ends_with(digits.as_slice(), "3") && !ends_with(digits.as_slice(), "13") {
        "rd"
    } else {
        "th"
    };
    proof {
        assert("1"@ =~= seq![digit_char(1)]);
        assert("2"@ =~= seq![digit_char(2)]);
        assert("3"@ =~= seq![digit_char(3)]);
        assert("11"@ =~= seq!['1', digit_char(1)]);
        assert("12"@ =~= seq!['1', digit_char(2)]);
        assert("13"@ =~= seq!['1', digit_char(3)]);
        assert(suffix@ =~= ordinal_suffix(value.value()));
    }
    let ghost before = f@;
    f.append(s.as_str());
    f.append(suffix);
    assert(f@ =~= before + ordinal_text(value.value()));
}

} // verus!
