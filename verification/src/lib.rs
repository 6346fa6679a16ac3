//! Responses to a game-lobby secure/validate challenge.
//!
//! A response is derived from a shared secret key and a challenge that the
//! server issued: both are validated, the key seeds a permutation of the byte
//! values, the challenge is mixed against that permutation, and the bytes that
//! come out are rendered in base64 without padding.

use vstd::prelude::*;
use vstd::slice::slice_subrange;
use vstd::string::StringSliceAdditionalSpecFns;
use vstd::utf8::{
    decode_utf8, encode_utf8, encode_utf8_decode_utf8, encode_utf8_valid_utf8,
    is_ascii_chars_encode_utf8, valid_utf8,
};

mod conv;
pub mod encode;
pub mod error;
pub mod mixer;
pub mod schedule;
pub mod validate;

pub use crate::error::{ChallengeError, Error, InvalidChallenge, InvalidKey, KeyError};
use crate::encode::{
    encode_group, encoded, group_count, is_symbol, lemma_alphabet_is_ascii, lemma_encoded_shape,
};
use crate::mixer::{lemma_mix_prefix_len, mix, mixed, RawState};
use crate::schedule::{key_schedule, scheduled_table};
use crate::validate::{
    challenge_verdict, key_verdict, lemma_challenge_verdict_ok, lemma_key_verdict_ok,
    valid_challenge, valid_key, validate_challenge, validate_key,
};

verus! {

/// The generated response to a secure/validate challenge: at most 88 bytes,
/// in groups of four, each of them a symbol of the base64 alphabet.
#[derive(Clone, Copy, Debug)]
pub struct Output {
    buffer: [u8; 88],
    len: usize,
}

impl View for Output {
    type V = Seq<u8>;

    closed spec fn view(&self) -> Seq<u8> {
        self.buffer@.subrange(0, self.len as int)
    }
}

/// The bytes that answer `challenge` under `key`, once both are known to be
/// valid.
pub open spec fn token(key: Seq<u8>, challenge: Seq<u8>) -> Seq<u8>
    recommends
        valid_key(key),
        valid_challenge(challenge),
{
    encoded(mixed(scheduled_table(key), challenge))
}

/// What `generate` owes on every pair of inputs: the key's refusal if the key
/// is refused, else the challenge's refusal if the challenge is refused, else
/// the token.
pub open spec fn response(key: Seq<u8>, challenge: Seq<u8>) -> Result<Seq<u8>, Error> {
    match key_verdict(key) {
        Err(reason) => Err(Error::InvalidKey(reason)),
        Ok(_) => match challenge_verdict(challenge) {
            Err(reason) => Err(Error::InvalidChallenge(reason)),
            Ok(_) => Ok(token(key, challenge)),
        },
    }
}

/// On valid inputs a response is owed: the token, and no refusal.
pub proof fn lemma_response_total(key: Seq<u8>, challenge: Seq<u8>)
    requires
        valid_key(key),
        valid_challenge(challenge),
    ensures
        response(key, challenge) == Ok::<Seq<u8>, Error>(token(key, challenge)),
{
    lemma_key_verdict_ok(key);
    lemma_challenge_verdict_ok(challenge);
}

/// A refusal is owed exactly on invalid inputs, and a refused key is
/// reported whatever the challenge holds.
pub proof fn lemma_response_refusals(key: Seq<u8>, challenge: Seq<u8>)
    ensures
        response(key, challenge) is Err <==> !(valid_key(key) && valid_challenge(challenge)),
        !valid_key(key) ==> response(key, challenge) == Err::<Seq<u8>, Error>(
            Error::InvalidKey(key_verdict(key)->Err_0),
        ),
        valid_key(key) && !valid_challenge(challenge) ==> response(key, challenge) == Err::<
            Seq<u8>,
            Error,
        >(Error::InvalidChallenge(challenge_verdict(challenge)->Err_0)),
{
    lemma_key_verdict_ok(key);
    lemma_challenge_verdict_ok(challenge);
}

/// The response is a function of the bytes alone: inputs that agree byte for
/// byte get the same response, however often it is generated.
pub proof fn lemma_response_repeats(
    key: Seq<u8>,
    challenge: Seq<u8>,
    key_again: Seq<u8>,
    challenge_again: Seq<u8>,
)
    requires
        key =~= key_again,
        challenge =~= challenge_again,
    ensures
        response(key, challenge) == response(key_again, challenge_again),
{
}

/// The token for a challenge of `n` bytes has `4 * ceil(n / 3)` bytes, so a
/// multiple of four, none for the empty challenge alone, and at most 88 for a
/// challenge of at most 64 bytes. Each of them is a symbol of the base64
/// alphabet, and none is `=`.
pub proof fn lemma_token_shape(key: Seq<u8>, challenge: Seq<u8>)
    ensures
        token(key, challenge).len() == 4 * group_count(challenge.len() as int),
        token(key, challenge).len() % 4 == 0,
        token(key, challenge).len() == 0 <==> challenge.len() == 0,
        challenge.len() <= 64 ==> token(key, challenge).len() <= 88,
        forall|i: int|
            0 <= i < token(key, challenge).len() ==> is_symbol(#[trigger] token(key, challenge)[i])
                && token(key, challenge)[i] != '=' as u8,
{
    lemma_mix_prefix_len(scheduled_table(key), challenge, challenge.len());
    lemma_encoded_shape(mixed(scheduled_table(key), challenge));
}

/// The text that a sequence of ASCII bytes spells.
pub open spec fn ascii_text(bytes: Seq<u8>) -> Seq<char> {
    Seq::new(bytes.len(), |i: int| bytes[i] as char)
}

/// Bytes below 128 are valid UTF-8, and the only text whose UTF-8 form they
/// are is the one they spell byte by byte.
pub proof fn lemma_ascii_bytes_are_text(bytes: Seq<u8>)
    requires
        forall|i: int| 0 <= i < bytes.len() ==> bytes[i] < 128,
    ensures
        valid_utf8(bytes),
        decode_utf8(bytes) == ascii_text(bytes),
        encode_utf8(ascii_text(bytes)) == bytes,
{
    let text = ascii_text(bytes);
    is_ascii_chars_encode_utf8(text);
    assert(encode_utf8(text) =~= bytes);
    encode_utf8_valid_utf8(text);
    encode_utf8_decode_utf8(text);
}

/// `core::str::from_utf8`: the bytes as a string slice, if and only if they
/// are valid UTF-8; the slice then holds exactly these bytes.
#[verifier::external_body]
fn utf8_str(bytes: &[u8]) -> (text: Option<&str>)
    ensures
        text is Some <==> valid_utf8(bytes@),
        text matches Some(s) ==> s.spec_bytes() == bytes@,
{
    match core::str::from_utf8(bytes) {
        Ok(s) => Some(s),
        Err(_) => None,
    }
}

impl Output {
    #[verifier::type_invariant]
    spec fn well_formed(self) -> bool {
        &&& self.len <= 88
        &&& self.len % 4 == 0
        &&& forall|i: int| 0 <= i < self.len ==> is_symbol(#[trigger] self.buffer@[i])
    }

    /// Renders raw bytes in base64, without padding characters: a last group
    /// of one or two bytes is filled up with zero bytes.
    pub fn encode(raw: &RawState) -> (out: Output)
        ensures
            out@ == encoded(raw@),
            out@.len() == 4 * group_count(raw@.len() as int),
    {
        let n = raw.len();
        let groups: usize = n / 3 + (if n % 3 > 0 { 1 } else { 0 });
        let mut buffer: [u8; 88] = [0u8; 88];
        let mut g: usize = 0;
        proof {
            lemma_encoded_shape(raw@);
        }
        while g < groups
            invariant
                g <= groups <= 22,
                groups == group_count(raw@.len() as int),
                encoded(raw@).len() == 4 * groups,
                forall|p: int| 0 <= p < 4 * g ==> buffer@[p] == encoded(raw@)[p],
            decreases groups - g,
        {
            let a: usize = g * 3;
            let b: usize = g * 4;
            let quad = encode_group(raw.padded(a), raw.padded(a + 1), raw.padded(a + 2));
            buffer[b] = quad[0];
            buffer[b + 1] = quad[1];
            buffer[b + 2] = quad[2];
            buffer[b + 3] = quad[3];
            proof {
                assert forall|p: int| 4 * g <= p < 4 * (g + 1) implies buffer@[p] == encoded(
                    raw@,
                )[p] by {
                    assert(p / 4 == g && 0 <= p % 4 < 4);
                }
            }
            g += 1;
        }
        let out = Output { buffer, len: groups * 4 };
        assert(out@ =~= encoded(raw@));
        out
    }

    /// Generates the response to `challenge` under `secret_key`.
    ///
    /// The key is validated first, then the challenge; nothing is computed
    /// from inputs that are refused.
    pub fn generate(secret_key: &[u8], challenge: &[u8]) -> (res: Result<Self, Error>)
        ensures
            match response(secret_key@, challenge@) {
                Ok(bytes) => res matches Ok(out) && out@ == bytes,
                Err(e) => res == Err::<Self, Error>(e),
            },
            res is Ok <==> valid_key(secret_key@) && valid_challenge(challenge@),
            res matches Ok(out) ==> {
                &&& out@ == token(secret_key@, challenge@)
                &&& out@.len() == 4 * group_count(challenge@.len() as int)
                &&& out@.len() % 4 == 0
                &&& out@.len() <= 88
                &&& (out@.len() == 0 <==> challenge@.len() == 0)
                &&& forall|i: int|
                    0 <= i < out@.len() ==> is_symbol(#[trigger] out@[i]) && out@[i] != '=' as u8
            },
    {
        match validate_key(secret_key) {
            Err(reason) => { return Err(Error::InvalidKey(reason)); },
            Ok(_) => {},
        }
        match validate_challenge(challenge) {
            Err(reason) => { return Err(Error::InvalidChallenge(reason)); },
            Ok(_) => {},
        }
        let mut table = key_schedule(secret_key);
        let raw = mix(&mut table, challenge);
        let out = Output::encode(&raw);
        proof {
            lemma_token_shape(secret_key@, challenge@);
        }
        Ok(out)
    }

    /// Returns the generated response as a byte slice.
    pub fn as_bytes(&self) -> (bytes: &[u8])
        ensures
            bytes@ == self@,
            bytes@.len() <= 88,
            bytes@.len() % 4 == 0,
            forall|i: int| 0 <= i < bytes@.len() ==> is_symbol(#[trigger] bytes@[i]),
    {
        proof {
            use_type_invariant(self);
        }
        slice_subrange(self.buffer.as_slice(), 0, self.len)
    }

    /// Returns the generated response as a string slice: the text that its
    /// bytes spell.
    pub fn as_str(&self) -> (text: &str)
        ensures
            text@ == ascii_text(self@),
            text.spec_bytes() == self@,
    {
        let bytes = self.as_bytes();
        proof {
            assert forall|i: int| 0 <= i < bytes@.len() implies bytes@[i] < 128 by {
                lemma_alphabet_is_ascii(bytes@[i]);
            }
            lemma_ascii_bytes_are_text(bytes@);
        }
        match utf8_str(bytes) {
            Some(s) => {
                proof {
                    encode_utf8_decode_utf8(s@);
                }
                s
            },
            None => "",
        }
    }
}

} // verus!
