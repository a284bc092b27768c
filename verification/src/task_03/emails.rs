//! E-mail addresses, in a simplified form.

use crate::task_03::{Obfuscatable, Obfuscated};
use crate::text::{chars_of, split, split_chars, string_of};
use std::str::FromStr;
use vstd::prelude::*;

verus! {

/// An e-mail address in a simplified form: what stands before the `@`, and
/// what stands after it.
pub struct Email {
    local: String,
    domain: String,
}

/// The two parts of an e-mail address: the mathematical model of an
/// [`Email`].
pub struct EmailParts {
    pub local: Seq<char>,
    pub domain: Seq<char>,
}

impl View for Email {
    type V = EmailParts;

    closed spec fn view(&self) -> EmailParts {
        EmailParts { local: self.local@, domain: self.domain@ }
    }
}

/// The parts of the e-mail address `text`, which has exactly one `@`. Any
/// other text is no e-mail address.
pub open spec fn parsed_email(text: Seq<char>) -> Option<EmailParts> {
    let parts = split(text, '@');
    if parts.len() == 2 {
        Some(EmailParts { local: parts[0], domain: parts[1] })
    } else {
        None
    }
}

/// What is shown of the local part: its first character, five stars in
/// place of what lies between where there are more than two characters, and
/// its last character.
pub open spec fn obfuscated_local(local: Seq<char>) -> Seq<char> {
    let first = if local.len() > 0 {
        seq![local.first()]
    } else {
        Seq::<char>::empty()
    };
    let stars = if local.len() > 2 {
        seq!['*', '*', '*', '*', '*']
    } else {
        Seq::<char>::empty()
    };
    let last = if local.len() > 1 {
        seq![local.last()]
    } else {
        Seq::<char>::empty()
    };
    first + stars + last
}

/// The obfuscated form of an e-mail address. The domain stays as it is.
pub open spec fn obfuscated_email(email: EmailParts) -> Seq<char> {
    obfuscated_local(email.local) + seq!['@'] + email.domain
}

impl Email {
    /// Reads an e-mail address. This does not validate the address; it only
    /// finds its two parts.
    pub fn from_str(s: &str) -> (email: Result<Email, String>)
        ensures
            email is Ok <==> parsed_email(s@) is Some,
            email matches Ok(parts) ==> Some(parts@) == parsed_email(s@),
            email matches Err(message) ==> message@ == "not an email"@,
    {
        let chars = chars_of(s);
        let parts = split_chars(chars.as_slice(), '@');

        if parts.len() != 2 {
            return Err("not an email".to_owned());
        }
        assert(split(s@, '@')[0] == parts@[0]@);
        assert(split(s@, '@')[1] == parts@[1]@);

        Ok(Email { local: string_of(parts[0].as_slice()), domain: string_of(parts[1].as_slice()) })
    }
}

impl FromStr for Email {
    type Err = String;

    fn from_str(s: &str) -> (email: Result<Self, Self::Err>)
        ensures
            email is Ok <==> parsed_email(s@) is Some,
            email matches Ok(parts) ==> Some(parts@) == parsed_email(s@),
            email matches Err(message) ==> message@ == "not an email"@,
    {
        Email::from_str(s)
    }
}

impl Obfuscatable for Email {

}

impl Obfuscated<Email> {
    /// Appends the obfuscated form of the address to `f`.
    pub fn fmt(&self, f: &mut String)
        ensures
            final(f)@ == old(f)@ + obfuscated_email(self.inner()@),
    {
        let chars = chars_of(self.0.local.as_str());
        let len = chars.len();
        let ghost before = f@;
        if len > 0 {
            f.push(chars[0]);
        }
        if len > 2 {
            proof {
                reveal_strlit("*****");
            }
            f.append("*****");
        }
        if len > 1 {
            f.push(chars[len - 1]);
        }
        assert(f@ =~= before + obfuscated_local(self.inner()@.local));
        f.push('@');
        f.append(self.0.domain.as_str());
        assert(f@ =~= before + obfuscated_email(self.inner()@));
    }

    /// The obfuscated form of the address.
    pub fn to_string(&self) -> (text: String)
        ensures
            text@ == obfuscated_email(self.inner()@),
    {
        let mut text = String::new();
        self.fmt(&mut text);
        assert(Seq::<char>::empty() + obfuscated_email(self.inner()@) =~= obfuscated_email(
            self.inner()@,
        ));
        text
    }
}

} // verus!
