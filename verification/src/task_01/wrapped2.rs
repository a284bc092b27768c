//! Ordinal numbers of positive integers, made with a trait of their own.

use crate::integer::Integer;
use crate::task_01::{ordinal_text, write_ordinal};
use vstd::prelude::*;

verus! {

/// What is said of an integer that is no ordinal number.
pub const NOT_POSITIVE: &'static str = "Ordinal inner value must be greater than zero";

/// A positive integer that shows itself as an ordinal number.
///
/// The only way to make one is `try_into_ordinal`, which refuses zero and
/// the negative numbers: the integer inside is always 1 or more.
#[derive(Copy, Debug, Eq, PartialEq, Ord, PartialOrd)]
pub struct Ordinal<T: Integer>(T);

impl<T: Integer> Clone for Ordinal<T> {
    fn clone(&self) -> (copy: Self)
        ensures
            copy == *self,
    {
        *self
    }
}

impl<T: Integer> Ordinal<T> {
    #[verifier::type_invariant]
    spec fn is_positive(self) -> bool {
        self.0.value() > 0
    }

    /// The integer inside.
    pub closed spec fn inner(self) -> T {
        self.0
    }

    /// The integer inside, which is positive.
    pub fn get(&self) -> (inner: T)
        ensures
            inner == self.inner(),
            inner.value() > 0,
    {
        proof {
            use_type_invariant(self);
        }
        self.0
    }

    /// Appends the ordinal number to `f`.
    pub fn fmt(&self, f: &mut String)
        ensures
            final(f)@ == old(f)@ + ordinal_text(self.inner().value()),
    {
        write_ordinal(self.0, f)
    }

    /// The ordinal number as a text.
    pub fn to_string(&self) -> (text: String)
        ensures
            text@ == ordinal_text(self.inner().value()),
    {
        let mut text = String::new();
        self.fmt(&mut text);
        assert(Seq::<char>::empty() + ordinal_text(self.inner().value()) =~= ordinal_text(
            self.inner().value(),
        ));
        text
    }
}

/// The conversion of a value into an ordinal number of the integer type `T`.
/// It succeeds exactly for the values that stand for a positive integer.
pub trait TryIntoOrdinal<T: Integer>: Sized {
    type Error;

    /// The integer that the value stands for.
    spec fn ordinal_value(self) -> int;

    fn try_into_ordinal(self) -> (ordinal: Result<Ordinal<T>, Self::Error>)
        ensures
            ordinal is Ok <==> self.ordinal_value() > 0,
            ordinal matches Ok(made) ==> made.inner().value() == self.ordinal_value(),
    ;
}

impl TryIntoOrdinal<i8> for i8 {
    type Error = &'static str;

    open spec fn ordinal_value(self) -> int {
        self as int
    }

    fn try_into_ordinal(self) -> (ordinal: Result<Ordinal<Self>, Self::Error>)
        ensures
            ordinal matches Ok(made) ==> made.inner() == self,
            ordinal matches Err(message) ==> message@ == NOT_POSITIVE@,
    {
        if self <= 0 {
            Err(NOT_POSITIVE)
        } else {
            Ok(Ordinal(self))
        }
    }
}

impl TryIntoOrdinal<i16> for i16 {
    type Error = &'static str;

    open spec fn ordinal_value(self) -> int {
        self as int
    }

    fn try_into_ordinal(self) -> (ordinal: Result<Ordinal<Self>, Self::Error>)
        ensures
            ordinal matches Ok(made) ==> made.inner() == self,
            ordinal matches Err(message) ==> message@ == NOT_POSITIVE@,
    {
        if self <= 0 {
            Err(NOT_POSITIVE)
        } else {
            Ok(Ordinal(self))
        }
    }
}

impl TryIntoOrdinal<i32> for i32 {
    type Error = &'static str;

    open spec fn ordinal_value(self) -> int {
        self as int
    }

    fn try_into_ordinal(self) -> (ordinal: Result<Ordinal<Self>, Self::Error>)
        ensures
            ordinal matches Ok(made) ==> made.inner() == self,
            ordinal matches Err(message) ==> message@ == NOT_POSITIVE@,
    {
        if self <= 0 {
            Err(NOT_POSITIVE)
        } else {
            Ok(Ordinal(self))
        }
    }
}

impl TryIntoOrdinal<i64> for i64 {
    type Error = &'static str;

    open spec fn ordinal_value(self) -> int {
        self as int
    }

    fn try_into_ordinal(self) -> (ordinal: Result<Ordinal<Self>, Self::Error>)
        ensures
            ordinal matches Ok(made) ==> made.inner() == self,
            ordinal matches Err(message) ==> message@ == NOT_POSITIVE@,
    {
        if self <= 0 {
            Err(NOT_POSITIVE)
        } else {
            Ok(Ordinal(self))
        }
    }
}

impl TryIntoOrdinal<u8> for u8 {
    type Error = &'static str;

    open spec fn ordinal_value(self) -> int {
        self as int
    }

    fn try_into_ordinal(self) -> (ordinal: Result<Ordinal<Self>, Self::Error>)
        ensures
            ordinal matches Ok(made) ==> made.inner() == self,
            ordinal matches Err(message) ==> message@ == NOT_POSITIVE@,
    {
        if self <= 0 {
            Err(NOT_POSITIVE)
        } else {
            Ok(Ordinal(self))
        }
    }
}

impl TryIntoOrdinal<u16> for u16 {
    type Error = &'static str;

    open spec fn ordinal_value(self) -> int {
        self as int
    }

    fn try_into_ordinal(self) -> (ordinal: Result<Ordinal<Self>, Self::Error>)
        ensures
            ordinal matches Ok(made) ==> made.inner() == self,
            ordinal matches Err(message) ==> message@ == NOT_POSITIVE@,
    {
        if self <= 0 {
            Err(NOT_POSITIVE)
        } else {
            Ok(Ordinal(self))
        }
    }
}

impl TryIntoOrdinal<u32> for u32 {
    type Error = &'static str;

    open spec fn ordinal_value(self) -> int {
        self as int
    }

    fn try_into_ordinal(self) -> (ordinal: Result<Ordinal<Self>, Self::Error>)
        ensures
            ordinal matches Ok(made) ==> made.inner() == self,
            ordinal matches Err(message) ==> message@ == NOT_POSITIVE@,
    {
        if self <= 0 {
            Err(NOT_POSITIVE)
        } else {
            Ok(Ordinal(self))
        }
    }
}

impl TryIntoOrdinal<u64> for u64 {
    type Error = &'static str;

    open spec fn ordinal_value(self) -> int {
        self as int
    }

    fn try_into_ordinal(self) -> (ordinal: Result<Ordinal<Self>, Self::Error>)
        ensures
            ordinal matches Ok(made) ==> made.inner() == self,
            ordinal matches Err(message) ==> message@ == NOT_POSITIVE@,
    {
        if self <= 0 {
            Err(NOT_POSITIVE)
        } else {
            Ok(Ordinal(self))
        }
    }
}

/// An integer that is no ordinal number.
#[derive(Clone, Copy, Debug, PartialEq, Eq, Structural)]
pub enum OrdinalError {
    ConvertError,
}

/// The ordinal number of `input` as a text: `1st` for 1. Zero and the
/// negative numbers are refused.
pub fn ordinal<T>(input: T) -> (text: Result<String, OrdinalError>) where
    T: TryIntoOrdinal<T, Error = &'static str> + Integer,

    ensures
        text is Ok <==> input.ordinal_value() > 0,
        text matches Ok(written) ==> written@ == ordinal_text(input.ordinal_value()),
{
    let result = input.try_into_ordinal();
    match result {
        Ok(ordinal) => Ok(ordinal.to_string()),
        Err(_e) => Err(OrdinalError::ConvertError),
    }
}

} // verus!
