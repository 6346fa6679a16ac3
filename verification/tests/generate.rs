use secure_validate::{ChallengeError, Error, InvalidChallenge, InvalidKey, KeyError, Output};

const ALPHABET: &[u8] = b"ABCDEFGHIJKLMNOPQRSTUVWXYZabcdefghijklmnopqrstuvwxyz0123456789+/";

fn text(key: &[u8], challenge: &[u8]) -> String {
    match Output::generate(key, challenge) {
        Ok(out) => out.as_str().to_string(),
        Err(e) => panic!("refused: {:?}", e),
    }
}

fn refusal(key: &[u8], challenge: &[u8]) -> Error {
    match Output::generate(key, challenge) {
        Ok(out) => panic!("accepted: {}", out.as_str()),
        Err(e) => e,
    }
}

#[test]
fn single_byte_key_and_empty_challenge_give_the_empty_string() {
    let out = Output::generate(&[0x01], &[]).unwrap();
    assert_eq!(out.as_str(), "");
    assert_eq!(out.as_bytes(), b"");
    assert!(out.as_bytes().is_empty());
}

#[test]
fn empty_key_is_refused_before_the_challenge_is_looked_at() {
    assert_eq!(refusal(&[], &[]), Error::InvalidKey(InvalidKey::ZeroLength));
    assert_eq!(refusal(&[], &[0u8; 65]), Error::InvalidKey(InvalidKey::ZeroLength));
    assert_eq!(refusal(&[], &[1, 0, 1]), Error::InvalidKey(InvalidKey::ZeroLength));
}

#[test]
fn key_of_257_bytes_is_too_long() {
    assert_eq!(refusal(&[7u8; 257], b"abc"), Error::InvalidKey(InvalidKey::TooLong));
}

#[test]
fn key_length_is_tested_before_key_content() {
    let mut key = [7u8; 300];
    key[10] = 0;
    assert_eq!(refusal(&key, b"abc"), Error::InvalidKey(InvalidKey::TooLong));
}

#[test]
fn key_with_a_zero_byte_is_refused() {
    assert_eq!(refusal(&[1, 2, 0, 4, 5], b"abc"), Error::InvalidKey(InvalidKey::InteriorNul));
    assert_eq!(refusal(&[0], b"abc"), Error::InvalidKey(InvalidKey::InteriorNul));
    assert_eq!(refusal(&[1, 2, 3, 4, 0], b"abc"), Error::InvalidKey(InvalidKey::InteriorNul));
}

#[test]
fn challenge_of_65_bytes_is_too_long() {
    assert_eq!(refusal(b"key", &[9u8; 65]), Error::InvalidChallenge(InvalidChallenge::TooLong));
}

#[test]
fn challenge_length_is_tested_before_challenge_content() {
    let mut challenge = [9u8; 65];
    challenge[0] = 0;
    assert_eq!(refusal(b"key", &challenge), Error::InvalidChallenge(InvalidChallenge::TooLong));
}

#[test]
fn challenge_with_a_zero_byte_is_refused() {
    let challenge = [1, 2, 3, 4, 5, 0, 7, 8, 9, 10];
    assert_eq!(
        refusal(b"key", &challenge),
        Error::InvalidChallenge(InvalidChallenge::InteriorNul)
    );
}

#[test]
fn key_refusal_comes_before_challenge_refusal() {
    assert_eq!(refusal(&[1, 0], &[9u8; 65]), Error::InvalidKey(InvalidKey::InteriorNul));
    assert_eq!(refusal(&[7u8; 257], &[0]), Error::InvalidKey(InvalidKey::TooLong));
}

#[test]
fn both_names_of_a_reason_are_one_type() {
    assert_eq!(refusal(&[], &[]), Error::InvalidKey(KeyError::ZeroLength));
    assert_eq!(refusal(b"key", &[0]), Error::InvalidChallenge(ChallengeError::InteriorNul));
}

#[test]
fn longest_inputs_are_accepted() {
    let out = Output::generate(&[255u8; 256], &[255u8; 64]).unwrap();
    assert_eq!(out.as_bytes().len(), 88);
    assert_eq!(
        out.as_str(),
        "7ADEjdexlGijdtJPwSF3Hfnr93jx/fWomy/n2yXqjIzPApw9zgGX2wn6QB0uHlGEc1ar2FzX7Cv2R/tPfz0+bgAA"
    );
}

#[test]
fn known_responses() {
    assert_eq!(text(b"HA6zkS", b"BXLMHU"), "WfU8p/Fx");
    assert_eq!(text(b"6MW4Vn", b"abcdefgh"), "p5kQLQ6GbI4A");
    assert_eq!(text(b"Key", b"Plaintext"), "unUEjNFNK2GI");
    assert_eq!(text(&[1], &[1]), "CQAA");
    assert_eq!(text(&[1], b"ab"), "qZMA");
}

#[test]
fn known_response_for_counting_inputs() {
    let mut key = [0u8; 256];
    for i in 0..255 {
        key[i] = (i + 1) as u8;
    }
    key[255] = 1;
    let mut challenge = [0u8; 64];
    for i in 0..64 {
        challenge[i] = (i + 1) as u8;
    }
    assert_eq!(
        text(&key, &challenge),
        "PX05w+rKty8Dj2OAVeA8SN+Q1/mCpvP6kuuX8+Dcz5ikC0qVFfFccRTOuaH5f7iUfrSj1QYyT8q5mVM0Y573XQAA"
    );
}

#[test]
fn repeated_calls_give_identical_bytes() {
    let first = Output::generate(b"HA6zkS", b"BXLMHU").unwrap();
    let second = Output::generate(b"HA6zkS", b"BXLMHU").unwrap();
    assert_eq!(first.as_bytes(), second.as_bytes());
    assert_eq!(first.as_str(), second.as_str());
    assert_eq!(refusal(&[], b"x"), refusal(&[], b"x"));
}

#[test]
fn length_is_four_times_the_number_of_groups() {
    let challenge = [0x41u8; 64];
    for n in 0..=64usize {
        let out = Output::generate(b"secret", &challenge[..n]).unwrap();
        assert_eq!(out.as_bytes().len(), 4 * ((n + 2) / 3));
        assert_eq!(out.as_bytes().len() % 4, 0);
        assert!(out.as_bytes().len() <= 88);
        assert_eq!(out.as_bytes().is_empty(), n == 0);
        assert_eq!(out.as_str().len(), out.as_bytes().len());
    }
}

#[test]
fn every_byte_is_in_the_alphabet() {
    let mut challenge = [0u8; 64];
    for i in 0..64 {
        challenge[i] = (200 + i) as u8 | 1;
    }
    for n in 0..=64usize {
        for key in [&b"k"[..], &b"HA6zkS"[..], &[0xffu8; 256][..]] {
            let out = Output::generate(key, &challenge[..n]).unwrap();
            for b in out.as_bytes() {
                assert!(ALPHABET.contains(b));
                assert_ne!(*b, b'=');
            }
        }
    }
}

#[test]
fn one_changed_byte_changes_the_response() {
    assert_ne!(text(b"HA6zkS", b"BXLMHU"), text(b"HA6zkS", b"BXLMHV"));
    assert_eq!(text(b"HA6zkS", b"BXLMHV"), "WfU8p/HE");
    assert_ne!(text(b"HA6zkS", b"BXLMHU"), text(b"HA6zkT", b"BXLMHU"));
    assert_eq!(text(b"HA6zkT", b"BXLMHU"), "wJ+vQAy9");
    assert_ne!(text(b"Key", b"Plaintext"), text(b"Kez", b"Plaintext"));
    assert_ne!(text(b"Key", b"Plaintext"), text(b"Key", b"Qlaintext"));
}

#[test]
fn string_view_spells_the_bytes() {
    let out = Output::generate(b"HA6zkS", b"BXLMHU").unwrap();
    assert_eq!(out.as_str(), "WfU8p/Fx");
    assert_eq!(out.as_bytes(), b"WfU8p/Fx");
    assert_eq!(out.as_str().as_bytes(), out.as_bytes());
}

#[test]
fn std_views_agree_with_the_methods() {
    let out = Output::generate(b"HA6zkS", b"BXLMHU").unwrap();
    let as_text: &str = out.as_ref();
    let as_raw: &[u8] = out.as_ref();
    let lent_text: &str = std::borrow::Borrow::borrow(&out);
    let lent_raw: &[u8] = std::borrow::Borrow::borrow(&out);
    assert_eq!(as_text, "WfU8p/Fx");
    assert_eq!(as_raw, b"WfU8p/Fx");
    assert_eq!(lent_text, "WfU8p/Fx");
    assert_eq!(lent_raw, b"WfU8p/Fx");
    assert_eq!(&*out, "WfU8p/Fx");
    assert_eq!(out.len(), 8);
}

#[test]
fn output_is_copied_by_value() {
    let out = Output::generate(b"Key", b"Plaintext").unwrap();
    let copy = out;
    assert_eq!(out.as_str(), copy.as_str());
    assert_eq!(copy.clone().as_bytes(), b"unUEjNFNK2GI");
}

#[test]
fn error_messages() {
    assert_eq!(Error::InvalidKey(InvalidKey::ZeroLength).message(), "invalid secret key");
    assert_eq!(
        Error::InvalidChallenge(InvalidChallenge::TooLong).message(),
        "invalid challenge"
    );
    assert_eq!(
        InvalidKey::InteriorNul.message(),
        "secret key contains one or more interior NUL bytes"
    );
    assert_eq!(InvalidKey::ZeroLength.message(), "secret key is empty");
    assert_eq!(InvalidKey::TooLong.message(), "secret key is longer than 256 bytes");
    assert_eq!(
        InvalidChallenge::InteriorNul.message(),
        "challenge contains one or more interior NUL bytes"
    );
    assert_eq!(InvalidChallenge::TooLong.message(), "challenge is longer than 64 bytes");
}

#[test]
fn reasons_convert_into_errors() {
    assert_eq!(Error::from(InvalidKey::TooLong), Error::InvalidKey(InvalidKey::TooLong));
    assert_eq!(
        Error::from(InvalidChallenge::InteriorNul),
        Error::InvalidChallenge(InvalidChallenge::InteriorNul)
    );
    let e: Error = KeyError::ZeroLength.into();
    assert_eq!(e, Error::InvalidKey(InvalidKey::ZeroLength));
}
