//! Ordinal numbers of positive integers, made with `TryFrom`.

use crate::integer::Integer;
use crate::task_01::{ordinal_text, write_ordinal};
use std::convert::TryFrom;
use vstd::prelude::*;
use vstd::std_specs::convert::TryFromSpecImpl;

verus! {

/// What is said of an integer that is no ordinal number.
pub const NOT_POSITIVE: &'static str = "Ordinal inner value must be greater than zero";

/// A positive integer that shows itself as an ordinal number.
///
/// The only way to make one is `try_from`, which refuses zero and the
/// negative numbers: the integer inside is always 1 or more.
#[derive(Copy, Debug, Eq, PartialEq, Ord, PartialOrd)]
pub struct Ordinal<T: Integer>(T);

impl<T: Integer> Clone for Ordinal<T> {
    fn clone(&self) -> (copy: Self)
        ensures
            copy == *self,
    {
        *self
    }
}

impl<T: Integer> Ordinal<T> {
    #[verifier::type_invariant]
    spec fn is_positive(self) -> bool {
        self.0.value() > 0
    }

    /// The integer inside.
    pub closed spec fn inner(self) -> T {
        self.0
    }

    /// The integer inside, which is positive.
    pub fn get(&self) -> (inner: T)
        ensures
            inner == self.inner(),
            inner.value() > 0,
    {
        proof {
            use_type_invariant(self);
        }
        self.0
    }

    /// Appends the ordinal number to `f`.
    pub fn fmt(&self, f: &mut String)
        ensures
            final(f)@ == old(f)@ + ordinal_text(self.inner().value()),
    {
        write_ordinal(self.0, f)
    }

    /// The ordinal number as a text.
    pub fn to_string(&self) -> (text: String)
        ensures
            text@ == ordinal_text(self.inner().value()),
    {
        let mut text = String::new();
        self.fmt(&mut text);
        assert(Seq::<char>::empty() + ordinal_text(self.inner().value()) =~= ordinal_text(
            self.inner().value(),
        ));
        text
    }
}

impl TryFrom<i8> for Ordinal<i8> {
    type Error = &'static str;

    fn try_from(value: i8) -> (ordinal: Result<Self, Self::Error>)
        ensures
            ordinal is Ok <==> value > 0,
            ordinal matches Ok(made) ==> made.inner() == value,
            ordinal matches Err(message) ==> message@ == NOT_POSITIVE@,
    {
        if value <= 0 {
            Err(NOT_POSITIVE)
        } else {
            Ok(Ordinal(value))
        }
    }
}

impl TryFromSpecImpl<i8> for Ordinal<i8> {
    open spec fn obeys_try_from_spec() -> bool {
        true
    }

    closed spec fn try_from_spec(v: i8) -> Result<Self, Self::Error> {
        if v <= 0 {
            Err(NOT_POSITIVE)
        } else {
            Ok(Ordinal(v))
        }
    }
}

impl TryFrom<i16> for Ordinal<i16> {
    type Error = &'static str;

    fn try_from(value: i16) -> (ordinal: Result<Self, Self::Error>)
        ensures
            ordinal is Ok <==> value > 0,
            ordinal matches Ok(made) ==> made.inner() == value,
            ordinal matches Err(message) ==> message@ == NOT_POSITIVE@,
    {
        if value <= 0 {
            Err(NOT_POSITIVE)
        } else {
            Ok(Ordinal(value))
        }
    }
}

impl TryFromSpecImpl<i16> for Ordinal<i16> {
    open spec fn obeys_try_from_spec() -> bool {
        true
    }

    closed spec fn try_from_spec(v: i16) -> Result<Self, Self::Error> {
        if v <= 0 {
            Err(NOT_POSITIVE)
        } else {
            Ok(Ordinal(v))
        }
    }
}

impl TryFrom<i32> for Ordinal<i32> {
    type Error = &'static str;

    fn try_from(value: i32) -> (ordinal: Result<Self, Self::Error>)
        ensures
            ordinal is Ok <==> value > 0,
            ordinal matches Ok(made) ==> made.inner() == value,
            ordinal matches Err(message) ==> message@ == NOT_POSITIVE@,
    {
        if value <= 0 {
            Err(NOT_POSITIVE)
        } else {
            Ok(Ordinal(value))
        }
    }
}

impl TryFromSpecImpl<i32> for Ordinal<i32> {
    open spec fn obeys_try_from_spec() -> bool {
        true
    }

    closed spec fn try_from_spec(v: i32) -> Result<Self, Self::Error> {
        if v <= 0 {
            Err(NOT_POSITIVE)
        } else {
            Ok(Ordinal(v))
        }
    }
}

impl TryFrom<i64> for Ordinal<i64> {
    type Error = &'static str;

    fn try_from(value: i64) -> (ordinal: Result<Self, Self::Error>)
        ensures
            ordinal is Ok <==> value > 0,
            ordinal matches Ok(made) ==> made.inner() == value,
            ordinal matches Err(message) ==> message@ == NOT_POSITIVE@,
    {
        if value <= 0 {
            Err(NOT_POSITIVE)
        } else {
            Ok(Ordinal(value))
        }
    }
}

impl TryFromSpecImpl<i64> for Ordinal<i64> {
    open spec fn obeys_try_from_spec() -> bool {
        true
    }

    closed spec fn try_from_spec(v: i64) -> Result<Self, Self::Error> {
        if v <= 0 {
            Err(NOT_POSITIVE)
        } else {
            Ok(Ordinal(v))
        }
    }
}

impl TryFrom<u8> for Ordinal<u8> {
    type Error = &'static str;

    fn try_from(value: u8) -> (ordinal: Result<Self, Self::Error>)
        ensures
            ordinal is Ok <==> value > 0,
            ordinal matches Ok(made) ==> made.inner() == value,
            ordinal matches Err(message) ==> message@ == NOT_POSITIVE@,
    {
        if value <= 0 {
            Err(NOT_POSITIVE)
        } else {
            Ok(Ordinal(value))
        }
    }
}

impl TryFromSpecImpl<u8> for Ordinal<u8> {
    open spec fn obeys_try_from_spec() -> bool {
        true
    }

    closed spec fn try_from_spec(v: u8) -> Result<Self, Self::Error> {
        if v <= 0 {
            Err(NOT_POSITIVE)
        } else {
            Ok(Ordinal(v))
        }
    }
}

impl TryFrom<u16> for Ordinal<u16> {
    type Error = &'static str;

    fn try_from(value: u16) -> (ordinal: Result<Self, Self::Error>)
        ensures
            ordinal is Ok <==> value > 0,
            ordinal matches Ok(made) ==> made.inner() == value,
            ordinal matches Err(message) ==> message@ == NOT_POSITIVE@,
    {
        if value <= 0 {
            Err(NOT_POSITIVE)
        } else {
            Ok(Ordinal(value))
        }
    }
}

impl TryFromSpecImpl<u16> for Ordinal<u16> {
    open spec fn obeys_try_from_spec() -> bool {
        true
    }

    closed spec fn try_from_spec(v: u16) -> Result<Self, Self::Error> {
        if v <= 0 {
            Err(NOT_POSITIVE)
        } else {
            Ok(Ordinal(v))
        }
    }
}

impl TryFrom<u32> for Ordinal<u32> {
    type Error = &'static str;

    fn try_from(value: u32) -> (ordinal: Result<Self, Self::Error>)
        ensures
            ordinal is Ok <==> value > 0,
            ordinal matches Ok(made) ==> made.inner() == value,
            ordinal matches Err(message) ==> message@ == NOT_POSITIVE@,
    {
        if value <= 0 {
            Err(NOT_POSITIVE)
        } else {
            Ok(Ordinal(value))
        }
    }
}

impl TryFromSpecImpl<u32> for Ordinal<u32> {
    open spec fn obeys_try_from_spec() -> bool {
        true
    }

    closed spec fn try_from_spec(v: u32) -> Result<Self, Self::Error> {
        if v <= 0 {
            Err(NOT_POSITIVE)
        } else {
            Ok(Ordinal(v))
        }
    }
}

impl TryFrom<u64> for Ordinal<u64> {
    type Error = &'static str;

    fn try_from(value: u64) -> (ordinal: Result<Self, Self::Error>)
        ensures
            ordinal is Ok <==> value > 0,
            ordinal matches Ok(made) ==> made.inner() == value,
            ordinal matches Err(message) ==> message@ == NOT_POSITIVE@,
    {
        if value <= 0 {
            Err(NOT_POSITIVE)
        } else {
            Ok(Ordinal(value))
        }
    }
}

impl TryFromSpecImpl<u64> for Ordinal<u64> {
    open spec fn obeys_try_from_spec() -> bool {
        true
    }

    closed spec fn try_from_spec(v: u64) -> Result<Self, Self::Error> {
        if v <= 0 {
            Err(NOT_POSITIVE)
        } else {
            Ok(Ordinal(v))
        }
    }
}

} // verus!
