//! The ways in which a secret key or a challenge can be refused.

use vstd::prelude::*;
use vstd::std_specs::convert::FromSpecImpl;

verus! {

/// Why a response could not be generated.
#[derive(Clone, Copy, Debug, PartialEq, Eq, Structural)]
pub enum Error {
    /// The provided secret key is invalid.
    InvalidKey(InvalidKey),
    /// The provided challenge is invalid.
    InvalidChallenge(InvalidChallenge),
}

/// Why a secret key was refused.
#[derive(Clone, Copy, Debug, PartialEq, Eq, Structural)]
pub enum InvalidKey {
    /// The secret key contains a NUL byte.
    InteriorNul,
    /// The secret key is empty.
    ZeroLength,
    /// The secret key is longer than 256 bytes.
    TooLong,
}

/// Why a challenge was refused.
#[derive(Clone, Copy, Debug, PartialEq, Eq, Structural)]
pub enum InvalidChallenge {
    /// The challenge contains a NUL byte.
    InteriorNul,
    /// The challenge is longer than 64 bytes.
    TooLong,
}

/// Another name for [`InvalidKey`].
pub type KeyError = InvalidKey;

/// Another name for [`InvalidChallenge`].
pub type ChallengeError = InvalidChallenge;

impl From<InvalidKey> for Error {
    fn from(other: InvalidKey) -> (res: Self) {
        Error::InvalidKey(other)
    }
}

impl FromSpecImpl<InvalidKey> for Error {
    open spec fn obeys_from_spec() -> bool {
        true
    }

    open spec fn from_spec(other: InvalidKey) -> Self {
        Error::InvalidKey(other)
    }
}

impl From<InvalidChallenge> for Error {
    fn from(other: InvalidChallenge) -> (res: Self) {
        Error::InvalidChallenge(other)
    }
}

impl FromSpecImpl<InvalidChallenge> for Error {
    open spec fn obeys_from_spec() -> bool {
        true
    }

    open spec fn from_spec(other: InvalidChallenge) -> Self {
        Error::InvalidChallenge(other)
    }
}

impl Error {
    /// A short description of which input was refused.
    pub fn message(&self) -> (msg: &'static str)
        ensures
            self is InvalidKey ==> msg@ == "invalid secret key"@,
            self is InvalidChallenge ==> msg@ == "invalid challenge"@,
    {
        match self {
            Error::InvalidKey(_) => "invalid secret key",
            Error::InvalidChallenge(_) => "invalid challenge",
        }
    }
}

impl InvalidKey {
    /// The text that [`InvalidKey::message`] returns.
    pub open spec fn spec_message(self) -> Seq<char> {
        match self {
            InvalidKey::InteriorNul => "secret key contains one or more interior NUL bytes"@,
            InvalidKey::ZeroLength => "secret key is empty"@,
            InvalidKey::TooLong => "secret key is longer than 256 bytes"@,
        }
    }

    /// A description of the reason.
    pub fn message(&self) -> (msg: &'static str)
        ensures
            msg@ == self.spec_message(),
    {
        match self {
            InvalidKey::InteriorNul => "secret key contains one or more interior NUL bytes",
            InvalidKey::ZeroLength => "secret key is empty",
            InvalidKey::TooLong => "secret key is longer than 256 bytes",
        }
    }
}

impl InvalidChallenge {
    /// The text that [`InvalidChallenge::message`] returns.
    pub open spec fn spec_message(self) -> Seq<char> {
        match self {
            InvalidChallenge::InteriorNul => "challenge contains one or more interior NUL bytes"@,
            InvalidChallenge::TooLong => "challenge is longer than 64 bytes"@,
        }
    }

    /// A description of the reason.
    pub fn message(&self) -> (msg: &'static str)
        ensures
            msg@ == self.spec_message(),
    {
        match self {
            InvalidChallenge::InteriorNul => "challenge contains one or more interior NUL bytes",
            InvalidChallenge::TooLong => "challenge is longer than 64 bytes",
        }
    }
}

} // verus!
