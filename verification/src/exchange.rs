//! The forms in which certificates and keys are handed around: a certificate
//! as the standard base64 of its canonical encoding, a key as lowercase hex.

use base64::Engine;
use crate::ca::SigningKeyPair;
use crate::canonical::{certificate_encoding, encode_certificate};
use crate::codec::bytes_result_view;
use crate::error::{AletheiaError, ErrorView, Outcome, Result};
use crate::reading::{certificate_decoding, certificate_result_view, decode_certificate};
use crate::types::{Certificate, CertificateView};
use vstd::prelude::*;
use vstd::string::StringExecFns;

verus! {

/// What the standard base64 engine of `base64` writes for the given bytes.
pub uninterp spec fn base64_text(bytes: Seq<u8>) -> Seq<char>;

/// What the standard base64 engine of `base64` reads out of the given text:
/// the bytes, or the text of its error.
pub uninterp spec fn base64_bytes(text: Seq<char>) -> core::result::Result<Seq<u8>, Seq<char>>;

/// The lowercase hex digit that writes a number below sixteen.
pub open spec fn hex_digit(n: int) -> char {
    if n == 0 {
        '0'
    } else if n == 1 {
        '1'
    } else if n == 2 {
        '2'
    } else if n == 3 {
        '3'
    } else if n == 4 {
        '4'
    } else if n == 5 {
        '5'
    } else if n == 6 {
        '6'
    } else if n == 7 {
        '7'
    } else if n == 8 {
        '8'
    } else if n == 9 {
        '9'
    } else if n == 10 {
        'a'
    } else if n == 11 {
        'b'
    } else if n == 12 {
        'c'
    } else if n == 13 {
        'd'
    } else if n == 14 {
        'e'
    } else {
        'f'
    }
}

/// Bytes in lowercase hex: two digits for every byte, the high one first.
pub open spec fn hex_text(bytes: Seq<u8>) -> Seq<char> {
    Seq::new(
        2 * bytes.len(),
        |i: int|
            if i % 2 == 0 {
                hex_digit(bytes[i / 2] as int / 16)
            } else {
                hex_digit(bytes[i / 2] as int % 16)
            },
    )
}

/// The number that a hex digit writes, in either case; none for any other
/// character.
pub open spec fn hex_digit_value(c: char) -> Option<int> {
    let code = c as u32;
    if 0x30 <= code <= 0x39 {
        Some(code - 0x30)
    } else if 0x61 <= code <= 0x66 {
        Some(code - 0x61 + 10)
    } else if 0x41 <= code <= 0x46 {
        Some(code - 0x41 + 10)
    } else {
        None
    }
}

/// The bytes that a hex text holds: the text must be an even number of hex
/// digits, two for every byte, the high one first.
pub open spec fn hex_pairs(text: Seq<char>) -> Option<Seq<u8>> {
    if text.len() % 2 == 0 && forall|i: int|
        0 <= i < text.len() ==> hex_digit_value(#[trigger] text[i]) is Some {
        Some(
            Seq::new(
                text.len() / 2,
                |i: int|
                    (16 * hex_digit_value(text[2 * i])->0 + hex_digit_value(
                        text[2 * i + 1],
                    )->0) as u8,
            ),
        )
    } else {
        None
    }
}

/// The text of the error that `hex::decode` gives for a text that holds no bytes.
pub uninterp spec fn hex_error(text: Seq<char>) -> Seq<char>;

/// What reading a hex text gives: the bytes that it holds, or the text of the
/// error.
pub open spec fn hex_bytes(text: Seq<char>) -> core::result::Result<Seq<u8>, Seq<char>> {
    match hex_pairs(text) {
        Some(bytes) => Ok(bytes),
        None => Err(hex_error(text)),
    }
}

/// What `str::trim` leaves of the given text.
pub uninterp spec fn trimmed(text: Seq<char>) -> Seq<char>;

/// `Engine::encode` of `base64::engine::general_purpose::STANDARD`. It
/// panics where the length of its output, four characters for every three
/// bytes, does not fit `usize` or is more than a buffer can have: neither
/// happens for an input of at most a quarter of `usize::MAX` bytes.
#[verifier::external_body]
fn base64_encode(bytes: &[u8]) -> (r: String)
    requires
        bytes@.len() <= usize::MAX / 4,
    ensures
        r@ == base64_text(bytes@),
{
    base64::engine::general_purpose::STANDARD.encode(bytes)
}

/// `Engine::decode` of `base64::engine::general_purpose::STANDARD`: the
/// bytes, or the text of the error.
#[verifier::external_body]
pub(crate) fn base64_decode(text: &str) -> (r: core::result::Result<Vec<u8>, String>)
    ensures
        match r {
            Ok(bytes) => base64_bytes(text@) == Ok::<Seq<u8>, Seq<char>>(bytes@),
            Err(e) => base64_bytes(text@) == Err::<Seq<u8>, Seq<char>>(e@),
        },
{
    match base64::engine::general_purpose::STANDARD.decode(text) {
        Ok(bytes) => Ok(bytes),
        Err(e) => Err(e.to_string()),
    }
}

/// `hex::encode`: two lowercase digits for every byte, the high one first.
#[verifier::external_body]
fn hex_encode(bytes: &[u8]) -> (r: String)
    ensures
        r@ == hex_text(bytes@),
{
    hex::encode(bytes)
}

/// `hex::decode`: the bytes of a text that is an even number of hex digits
/// in either case, two for every byte; for any other text, the text of the
/// error.
#[verifier::external_body]
fn hex_decode(text: &str) -> (r: core::result::Result<Vec<u8>, String>)
    ensures
        match r {
            Ok(bytes) => hex_pairs(text@) == Some(bytes@),
            Err(e) => hex_pairs(text@) is None && hex_error(text@) == e@,
        },
{
    match hex::decode(text) {
        Ok(bytes) => Ok(bytes),
        Err(e) => Err(e.to_string()),
    }
}

/// `str::trim`: the text without the white space at its ends.
#[verifier::external_body]
fn trim(text: &str) -> (r: &str)
    ensures
        r@ == trimmed(text@),
{
    text.trim()
}

/// The view of a text or its error.
pub open spec fn text_result_view(
    r: Result<String>,
) -> Outcome<Seq<char>> {
    match r {
        Ok(t) => Ok(t@),
        Err(e) => Err(e@),
    }
}

/// The exchange form of a certificate: the base64 of its canonical
/// encoding, where that is short enough to be written in base64.
pub open spec fn certificate_text(c: CertificateView) -> Outcome<Seq<char>> {
    match certificate_encoding(c) {
        Err(e) => Err(e),
        Ok(bytes) => if bytes.len() > usize::MAX / 4 {
            Err(ErrorView::CborEncode("encoded certificate too long"@))
        } else {
            Ok(base64_text(bytes))
        },
    }
}

/// The certificate that an exchange form holds: the text is trimmed, read as
/// base64 and decoded.
pub open spec fn certificate_of_text(text: Seq<char>) -> Outcome<CertificateView> {
    match base64_bytes(trimmed(text)) {
        Err(e) => Err(
            ErrorView::InvalidCertificate("Invalid certificate format (not base64): "@ + e),
        ),
        Ok(bytes) => certificate_decoding(bytes),
    }
}

/// Writes a certificate in its exchange form. Fails only where the encoding
/// is too long to be written in base64.
pub fn certificate_to_text(cert: &Certificate) -> (r: Result<String>)
    ensures
        text_result_view(r) == certificate_text(cert@),
        r matches Err(e) ==> e@ == ErrorView::CborEncode("encoded certificate too long"@),
{
    match encode_certificate(cert) {
        Ok(bytes) => if bytes.len() > usize::MAX / 4 {
            Err(AletheiaError::CborEncode("encoded certificate too long".to_owned()))
        } else {
            Ok(base64_encode(bytes.as_slice()))
        },
        Err(e) => Err(e),
    }
}

/// Reads a certificate from its exchange form.
pub fn certificate_from_text(text: &str) -> (r: Result<Certificate>)
    ensures
        certificate_result_view(r) == certificate_of_text(text@),
{
    match base64_decode(trim(text)) {
        Ok(bytes) => decode_certificate(bytes.as_slice()),
        Err(e) => {
            let mut message = "Invalid certificate format (not base64): ".to_owned();
            message.append(e.as_str());
            Err(AletheiaError::InvalidCertificate(message))
        },
    }
}

/// Writes bytes as lowercase hex: the storage form of keys.
pub fn key_to_text(key: &[u8]) -> (r: String)
    ensures
        r@ == hex_text(key@),
        r@.len() == 2 * key@.len(),
{
    hex_encode(key)
}

/// The key bytes that a storage form holds: the text is trimmed and read as hex.
pub open spec fn key_of_text(text: Seq<char>) -> Outcome<Seq<u8>> {
    match hex_bytes(trimmed(text)) {
        Ok(bytes) => Ok(bytes),
        Err(e) => Err(ErrorView::InvalidCertificate("Invalid key format: "@ + e)),
    }
}

/// Reads key bytes from their storage form.
pub fn key_from_text(text: &str) -> (r: Result<Vec<u8>>)
    ensures
        bytes_result_view(r) == key_of_text(text@),
{
    match hex_decode(trim(text)) {
        Ok(bytes) => Ok(bytes),
        Err(e) => {
            let mut message = "Invalid key format: ".to_owned();
            message.append(e.as_str());
            Err(AletheiaError::InvalidCertificate(message))
        },
    }
}

/// Reads a signing key pair from the storage form of its secret key.
pub fn key_pair_from_text(text: &str) -> (r: Result<SigningKeyPair>)
    ensures
        match r {
            Ok(pair) => key_of_text(text@) == Ok::<Seq<u8>, ErrorView>(pair.secret_key()),
            Err(e) => match key_of_text(text@) {
                Err(inner) => e@ == inner,
                Ok(bytes) => bytes.len() != 32 && e@ == ErrorView::InvalidCertificate(
                    "Invalid private key length"@,
                ),
            },
        },
{
    match key_from_text(text) {
        Ok(bytes) => SigningKeyPair::from_bytes(bytes.as_slice()),
        Err(e) => Err(e),
    }
}

/// Reading the hex text of bytes gives the bytes back.
pub proof fn lemma_hex_round_trip(bytes: Seq<u8>)
    ensures
        hex_pairs(hex_text(bytes)) == Some(bytes),
{
    let text = hex_text(bytes);
    assert forall|i: int| 0 <= i < text.len() implies hex_digit_value(#[trigger] text[i])
        is Some by {
        let b = bytes[i / 2] as int;
        assert(0 <= b / 16 < 16 && 0 <= b % 16 < 16);
    }
    assert forall|n: int| 0 <= n < 16 implies hex_digit_value(#[trigger] hex_digit(n)) == Some(
        n,
    ) by {}
    let back = hex_pairs(text)->0;
    assert forall|i: int| 0 <= i < bytes.len() implies back[i] == bytes[i] by {
        let b = bytes[i] as int;
        assert(text[2 * i] == hex_digit(b / 16));
        assert(text[2 * i + 1] == hex_digit(b % 16));
        assert(0 <= b / 16 < 16 && 0 <= b % 16 < 16);
    }
    assert(back =~= bytes);
}

} // verus!
