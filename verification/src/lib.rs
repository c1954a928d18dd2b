//! Signed envelopes that bind a payload to an identity vouched for by a
//! certificate authority.
//!
//! An envelope holds a payload, a header, a chain of certificates and a
//! signature. The chain leads from the creator's certificate to a root
//! certificate; the signature is the creator's over the framed header,
//! payload and chain. Verification checks the chain against a set of trusted
//! root keys and the signature against the creator's key.
//!
//! * [`types`]: flags, header, certificate and envelope;
//! * [`canonical`], [`reading`], [`roundtrip`]: the canonical forms of the
//!   records, reading them back, and the proofs that tie the two together;
//! * [`codec`]: CBOR items and the calls into `ciborium`;
//! * [`file`]: the layout of an envelope in bytes;
//! * [`certificate`], [`ca`]: checking and issuing certificates;
//! * [`signer`], [`verification`]: making and verifying envelopes;
//! * [`crypto`], [`compression`], [`clock`]: Ed25519, LZ4 and the time;
//! * [`exchange`], [`text`], [`frontend`], [`portal`]: what programs around
//!   the library need of it;
//! * [`bytes`], [`endian`], [`equality`], [`error`]: byte strings,
//!   little-endian numbers, equality of records and the errors.
//!
//! Every function is verified against its contract. What the outside crates
//! do is believed as their wrappers state it, and named where it takes more
//! than a few lines to say.

pub mod bytes;
pub mod ca;
pub mod canonical;
pub mod certificate;
pub mod clock;
pub mod codec;
pub mod compression;
pub mod crypto;
pub mod endian;
pub mod equality;
pub mod error;
pub mod exchange;
pub mod file;
pub mod frontend;
pub mod portal;
pub mod reading;
pub mod roundtrip;
pub mod signer;
pub mod text;
pub mod types;
pub mod verification;

pub use error::{AletheiaError, ErrorView, Result};
pub use types::{
    AletheiaFile, Certificate, CertificateView, CustomValue, FileView, Flags, Header, HeaderView,
    ValueView, MAGIC_BYTES, VERSION_MAJOR, VERSION_MINOR,
};
