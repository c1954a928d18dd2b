//! The signature scheme and the random source, as the library sees them:
//! Ed25519 from `ed25519_dalek`, random bytes from `rand`.

use ed25519_dalek::{Signature, Signer, SigningKey, Verifier, VerifyingKey};
use rand::Rng;
use vstd::prelude::*;

verus! {

/// The text of the error that `VerifyingKey::try_from` gives for the bytes
/// of a public key; `None` where it accepts them.
pub uninterp spec fn ed25519_key_error(public: Seq<u8>) -> Option<Seq<char>>;

/// The bytes of the verifying key that belongs to a thirty-two byte secret key.
pub uninterp spec fn ed25519_public_key(secret: Seq<u8>) -> Seq<u8>;

/// The bytes of the signature that a secret key makes over a message.
pub uninterp spec fn ed25519_signature(secret: Seq<u8>, message: Seq<u8>) -> Seq<u8>;

/// Whether the bytes parse as a public key and as a signature, and the key
/// accepts the signature over the message.
pub uninterp spec fn ed25519_accepts(public: Seq<u8>, message: Seq<u8>, signature: Seq<u8>) -> bool;

/// Whether the bytes are a public key of the scheme.
pub open spec fn is_public_key(public: Seq<u8>) -> bool {
    ed25519_key_error(public) is None
}

/// `VerifyingKey::try_from` on a byte slice: whether the bytes are a public
/// key, and if not, the text of the error. The key must have thirty-two bytes.
#[verifier::external_body]
pub(crate) fn check_public_key(public: &[u8]) -> (r: core::result::Result<(), String>)
    ensures
        match r {
            Ok(_) => ed25519_key_error(public@) is None,
            Err(text) => ed25519_key_error(public@) == Some(text@),
        },
        r is Ok ==> public@.len() == 32,
{
    match VerifyingKey::try_from(public) {
        Ok(_) => Ok(()),
        Err(e) => Err(e.to_string()),
    }
}

/// `Signature::try_from` on a byte slice: whether the bytes have the form of
/// a signature, and if not, the text of the error. They have it exactly when
/// there are sixty-four of them; for any other number the error carries no
/// cause, and its text is the same.
#[verifier::external_body]
pub(crate) fn check_signature_format(signature: &[u8]) -> (r: core::result::Result<(), String>)
    ensures
        r is Ok <==> signature@.len() == 64,
        r matches Err(text) ==> text@ == "signature error"@,
{
    match Signature::try_from(signature) {
        Ok(_) => Ok(()),
        Err(e) => Err(e.to_string()),
    }
}

/// `SigningKey::verifying_key` for the key that `SigningKey::from_bytes`
/// makes of the secret: the thirty-two bytes of the public key, which
/// `VerifyingKey::try_from` accepts.
#[verifier::external_body]
pub(crate) fn derive_public_key(secret: &[u8; 32]) -> (r: Vec<u8>)
    ensures
        r@ == ed25519_public_key(secret@),
        r@.len() == 32,
        ed25519_key_error(r@) is None,
{
    SigningKey::from_bytes(secret).verifying_key().to_bytes().to_vec()
}

/// `Signer::sign` for the key that `SigningKey::from_bytes` makes of the
/// secret: the sixty-four bytes of the signature, which the public key of
/// that secret accepts over the same message.
#[verifier::external_body]
pub(crate) fn sign_message(secret: &[u8; 32], message: &[u8]) -> (r: Vec<u8>)
    ensures
        r@ == ed25519_signature(secret@, message@),
        r@.len() == 64,
        ed25519_accepts(ed25519_public_key(secret@), message@, r@),
{
    SigningKey::from_bytes(secret).sign(message).to_bytes().to_vec()
}

/// `Verifier::verify` for the key and the signature that the bytes parse to:
/// false where either does not parse or the key rejects the signature. So
/// where it is true, `VerifyingKey::try_from` takes the key, and the
/// signature has the sixty-four bytes that `Signature::try_from` asks for.
#[verifier::external_body]
pub(crate) fn signature_accepted(public: &[u8], message: &[u8], signature: &[u8]) -> (r: bool)
    ensures
        r == ed25519_accepts(public@, message@, signature@),
        r ==> ed25519_key_error(public@) is None && signature@.len() == 64,
{
    match (VerifyingKey::try_from(public), Signature::try_from(signature)) {
        (Ok(key), Ok(sig)) => key.verify(message, &sig).is_ok(),
        _ => false,
    }
}

/// `SigningKey::generate` with the operating system's random source: the
/// bytes of a fresh secret key.
#[verifier::external_body]
pub(crate) fn random_secret_key() -> (r: [u8; 32])
{
    SigningKey::generate(&mut rand::rngs::OsRng).to_bytes()
}

/// `Rng::fill` of `rand::thread_rng` on a buffer of `count` bytes.
#[verifier::external_body]
pub(crate) fn random_bytes(count: usize) -> (r: Vec<u8>)
    ensures
        r@.len() == count,
{
    let mut bytes = vec![0u8; count];
    rand::thread_rng().fill(&mut bytes[..]);
    bytes
}

} // verus!
