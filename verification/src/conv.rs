//! The response seen as a string slice or as bytes, through std's traits.

use vstd::prelude::*;
use crate::{ascii_text, Output};

verus! {

impl core::ops::Deref for Output {
    type Target = str;

    fn deref(&self) -> (text: &str)
        ensures
            text@ == ascii_text(self@),
    {
        self.as_str()
    }
}

impl AsRef<[u8]> for Output {
    /// The bytes of the response.
    fn as_ref(&self) -> (bytes: &[u8])
        ensures
            <[u8] as View>::view(bytes) == self@,
    {
        self.as_bytes()
    }
}

impl AsRef<str> for Output {
    /// The text that the bytes of the response spell.
    fn as_ref(&self) -> (text: &str)
        ensures
            <str as View>::view(text) == ascii_text(self@),
    {
        self.as_str()
    }
}

impl core::borrow::Borrow<[u8]> for Output {
    /// The bytes of the response.
    fn borrow(&self) -> (bytes: &[u8])
        ensures
            <[u8] as View>::view(bytes) == self@,
    {
        self.as_bytes()
    }
}

impl core::borrow::Borrow<str> for Output {
    /// The text that the bytes of the response spell.
    fn borrow(&self) -> (text: &str)
        ensures
            <str as View>::view(text) == ascii_text(self@),
    {
        self.as_str()
    }
}

} // verus!
