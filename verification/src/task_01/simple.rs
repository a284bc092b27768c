//! Ordinal numbers of any integer, negative ones and zero included.

use crate::integer::Integer;
use crate::task_01::{ordinal_text, write_ordinal};
use vstd::prelude::*;

verus! {

/// An integer that shows itself as an ordinal number.
///
/// Any integer can stand inside: zero shows as `0th`, and a negative number
/// gets the suffix of the positive one.
#[derive(Copy, Clone, Debug)]
pub struct Ordinal<T: Integer>(pub T);

/// For integers that turn into an ordinal number by themselves, as in
/// `1.into_ordinal()`. This never fails.
pub trait IntoOrdinal: Sized {
    fn into_ordinal(self) -> (ordinal: Ordinal<Self>) where Self: Integer
        ensures
            ordinal.0 == self,
    {
        Ordinal(self)
    }
}

impl IntoOrdinal for i32 {

}

impl<T: Integer> Ordinal<T> {
    /// Appends the ordinal number to `f`.
    pub fn fmt(&self, f: &mut String)
        ensures
            final(f)@ == old(f)@ + ordinal_text(self.0.value()),
    {
        write_ordinal(self.0, f)
    }

    /// The ordinal number as a text.
    pub fn to_string(&self) -> (text: String)
        ensures
            text@ == ordinal_text(self.0.value()),
    {
        let mut text = String::new();
        self.fmt(&mut text);
        assert(Seq::<char>::empty() + ordinal_text(self.0.value()) =~= ordinal_text(
            self.0.value(),
        ));
        text
    }
}

/// The ordinal number of `input` as a text: `1st` for 1.
pub fn ordinal<T: IntoOrdinal + Integer>(input: T) -> (text: String)
    ensures
        text@ == ordinal_text(input.value()),
{
    input.into_ordinal().to_string()
}

} // verus!
