//! Validation of the two inputs, before any computation.

use vstd::prelude::*;
use crate::error::{InvalidChallenge, InvalidKey};

verus! {

/// The longest secret key that is accepted, in bytes.
pub const MAX_KEY_LEN: usize = 256;

/// The longest challenge that is accepted, in bytes.
pub const MAX_CHALLENGE_LEN: usize = 64;

/// The verdict on a secret key: emptiness is tested first, then the length,
/// then the content.
pub open spec fn key_verdict(key: Seq<u8>) -> Result<(), InvalidKey> {
    if key.len() == 0 {
        Err(InvalidKey::ZeroLength)
    } else if key.len() > 256 {
        Err(InvalidKey::TooLong)
    } else if key.contains(0u8) {
        Err(InvalidKey::InteriorNul)
    } else {
        Ok(())
    }
}

/// The verdict on a challenge: the length is tested before the content.
/// The empty challenge is valid.
pub open spec fn challenge_verdict(challenge: Seq<u8>) -> Result<(), InvalidChallenge> {
    if challenge.len() > 64 {
        Err(InvalidChallenge::TooLong)
    } else if challenge.contains(0u8) {
        Err(InvalidChallenge::InteriorNul)
    } else {
        Ok(())
    }
}

/// A secret key is valid when it has 1 to 256 bytes, none of them zero.
pub open spec fn valid_key(key: Seq<u8>) -> bool {
    &&& 1 <= key.len() <= 256
    &&& forall|i: int| 0 <= i < key.len() ==> key[i] != 0
}

/// A challenge is valid when it has at most 64 bytes, none of them zero.
pub open spec fn valid_challenge(challenge: Seq<u8>) -> bool {
    &&& challenge.len() <= 64
    &&& forall|i: int| 0 <= i < challenge.len() ==> challenge[i] != 0
}

/// A key passes validation exactly when it is valid.
pub proof fn lemma_key_verdict_ok(key: Seq<u8>)
    ensures
        key_verdict(key) is Ok <==> valid_key(key),
{
    if valid_key(key) {
        assert(!key.contains(0u8));
    } else if 1 <= key.len() <= 256 {
        let i = choose|i: int| 0 <= i < key.len() && key[i] == 0;
        assert(key[i] == 0u8);
    }
}

/// A challenge passes validation exactly when it is valid.
pub proof fn lemma_challenge_verdict_ok(challenge: Seq<u8>)
    ensures
        challenge_verdict(challenge) is Ok <==> valid_challenge(challenge),
{
    if valid_challenge(challenge) {
        assert(!challenge.contains(0u8));
    } else if challenge.len() <= 64 {
        let i = choose|i: int| 0 <= i < challenge.len() && challenge[i] == 0;
        assert(challenge[i] == 0u8);
    }
}

/// Validation is a function of the bytes alone: inputs that agree byte for
/// byte get the same verdict, however often they are validated.
pub proof fn lemma_verdict_repeats(first: Seq<u8>, second: Seq<u8>)
    requires
        first =~= second,
    ensures
        key_verdict(first) == key_verdict(second),
        challenge_verdict(first) == challenge_verdict(second),
{
}

/// Tells whether any byte of `src` is zero.
pub fn has_interior_nul(src: &[u8]) -> (found: bool)
    ensures
        found == src@.contains(0u8),
{
    let mut i: usize = 0;
    while i < src.len()
        invariant
            i <= src@.len(),
            forall|k: int| 0 <= k < i ==> src@[k] != 0,
        decreases src@.len() - i,
    {
        if src[i] == 0 {
            return true;
        }
        i += 1;
    }
    false
}

/// Validates a secret key.
pub fn validate_key(key: &[u8]) -> (verdict: Result<(), InvalidKey>)
    ensures
        verdict == key_verdict(key@),
        verdict is Ok <==> valid_key(key@),
{
    proof {
        lemma_key_verdict_ok(key@);
    }
    if key.len() == 0 {
        Err(InvalidKey::ZeroLength)
    } else if key.len() > MAX_KEY_LEN {
        Err(InvalidKey::TooLong)
    } else if has_interior_nul(key) {
        Err(InvalidKey::InteriorNul)
    } else {
        Ok(())
    }
}

/// Validates a challenge.
pub fn validate_challenge(challenge: &[u8]) -> (verdict: Result<(), InvalidChallenge>)
    ensures
        verdict == challenge_verdict(challenge@),
        verdict is Ok <==> valid_challenge(challenge@),
{
    proof {
        lemma_challenge_verdict_ok(challenge@);
    }
    if challenge.len() > MAX_CHALLENGE_LEN {
        Err(InvalidChallenge::TooLong)
    } else if has_interior_nul(challenge) {
        Err(InvalidChallenge::InteriorNul)
    } else {
        Ok(())
    }
}

} // verus!
