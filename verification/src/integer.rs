//! The primitive integer types, seen as one kind of value.

use crate::decimal::{decimal_int, decimal_string, magnitude_of};
use vstd::prelude::*;

verus! {

/// A primitive integer: a value that is a whole number and can be written in
/// decimal notation.
pub trait Integer: Copy {
    /// The number that the value stands for.
    spec fn value(self) -> int;

    /// The decimal notation of the value, with a minus sign where it is
    /// negative.
    fn to_decimal(self) -> (text: String)
        ensures
            text@ == decimal_int(self.value()),
    ;
}

impl Integer for i8 {
    open spec fn value(self) -> int {
        self as int
    }

    fn to_decimal(self) -> (text: String) {
        decimal_string(self < 0, magnitude_of(self as i128))
    }
}

impl Integer for i16 {
    open spec fn value(self) -> int {
        self as int
    }

    fn to_decimal(self) -> (text: String) {
        decimal_string(self < 0, magnitude_of(self as i128))
    }
}

impl Integer for i32 {
    open spec fn value(self) -> int {
        self as int
    }

    fn to_decimal(self) -> (text: String) {
        decimal_string(self < 0, magnitude_of(self as i128))
    }
}

impl Integer for i64 {
    open spec fn value(self) -> int {
        self as int
    }

    fn to_decimal(self) -> (text: String) {
        decimal_string(self < 0, magnitude_of(self as i128))
    }
}

impl Integer for i128 {
    open spec fn value(self) -> int {
        self as int
    }

    fn to_decimal(self) -> (text: String) {
        decimal_string(self < 0, magnitude_of(self))
    }
}

impl Integer for isize {
    open spec fn value(self) -> int {
        self as int
    }

    fn to_decimal(self) -> (text: String) {
        decimal_string(self < 0, magnitude_of(self as i128))
    }
}

impl Integer for u8 {
    open spec fn value(self) -> int {
        self as int
    }

    fn to_decimal(self) -> (text: String) {
        decimal_string(false, self as u128)
    }
}

impl Integer for u16 {
    open spec fn value(self) -> int {
        self as int
    }

    fn to_decimal(self) -> (text: String) {
        decimal_string(false, self as u128)
    }
}

impl Integer for u32 {
    open spec fn value(self) -> int {
        self as int
    }

    fn to_decimal(self) -> (text: String) {
        decimal_string(false, self as u128)
    }
}

impl Integer for u64 {
    open spec fn value(self) -> int {
        self as int
    }

    fn to_decimal(self) -> (text: String) {
        decimal_string(false, self as u128)
    }
}

impl Integer for u128 {
    open spec fn value(self) -> int {
        self as int
    }

    fn to_decimal(self) -> (text: String) {
        decimal_string(false, self)
    }
}

impl Integer for usize {
    open spec fn value(self) -> int {
        self as int
    }

    fn to_decimal(self) -> (text: String) {
        decimal_string(false, self as u128)
    }
}

} // verus!
