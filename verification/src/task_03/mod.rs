//! Hiding most of an e-mail address or of a phone number.

pub mod emails;
pub mod phone_numbers;

use crate::task_03::emails::{obfuscated_email, parsed_email, Email};
use crate::task_03::phone_numbers::{obfuscated_phone_number, parsed_phone_number, PhoneNumber};
use vstd::prelude::*;

verus! {

/// A value that shows itself only in obfuscated form. The value inside
/// cannot be taken out again.
pub struct Obfuscated<T>(T);

impl<T> Obfuscated<T> {
    /// The value that is kept inside.
    pub closed spec fn inner(self) -> T {
        self.0
    }
}

/// What can be wrapped to be shown in obfuscated form.
pub trait Obfuscatable: Sized {
    fn obfuscated(self) -> (wrapped: Obfuscated<Self>)
        ensures
            wrapped.inner() == self,
    {
        Obfuscated(self)
    }
}

/// The input is neither an e-mail address nor a phone number.
#[derive(Debug, Clone, Copy, PartialEq, Eq, Structural)]
pub enum ObfuscationError {
    UnknownInput,
}

/// The obfuscated form of `input`: that of an e-mail address where it is
/// one, else that of a phone number where it is one.
pub open spec fn obfuscated_input(input: Seq<char>) -> Option<Seq<char>> {
    if let Some(email) = parsed_email(input) {
        Some(obfuscated_email(email))
    } else if let Ok(phone_number) = parsed_phone_number(input) {
        Some(obfuscated_phone_number(phone_number))
    } else {
        None
    }
}

/// Obfuscates the input, which is an e-mail address or a phone number.
///
/// Of an e-mail address such as `local-part@domain-name.com` it leaves
/// `l*****t@domain-name.com`, of a phone number such as `+44 123 456 789`
/// it leaves `+**-***-**6-789`. An input that is neither is refused.
pub fn obfuscate(input: String) -> (output: Result<String, ObfuscationError>)
    ensures
        output is Ok <==> obfuscated_input(input@) is Some,
        output matches Ok(text) ==> Some(text@) == obfuscated_input(input@),
        output matches Err(error) ==> error == ObfuscationError::UnknownInput,
{
    if let Ok(parsed_email) = Email::from_str(input.as_str()) {
        Ok(parsed_email.obfuscated().to_string())
    } else if let Ok(parsed_phone) = PhoneNumber::from_str(input.as_str()) {
        Ok(parsed_phone.obfuscated().to_string())
    } else {
        Err(ObfuscationError::UnknownInput)
    }
}

} // verus!
