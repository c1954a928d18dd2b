//! Failure kinds reported by the library.

use crate::text::{decimal, decimal_text};
use vstd::prelude::*;
use vstd::string::StringExecFns;

verus! {

/// Everything that can go wrong while reading, signing or verifying an envelope.
#[derive(Debug)]
pub enum AletheiaError {
    /// The first eight bytes are not the envelope marker.
    InvalidMagic,
    /// The major version is not the one this library reads.
    UnsupportedVersion { major: u8, minor: u8 },
    /// The envelope signature does not verify.
    InvalidSignature,
    /// The certificate chain breaks a chain rule.
    CertificateChainInvalid(String),
    /// No certificate is known for a subject.
    CertificateNotFound(String),
    /// The chain ends at a key outside the trust set.
    UntrustedRoot,
    /// A certificate was revoked.
    CertificateRevoked(String),
    /// A key or a certificate is malformed, or a certificate signature fails.
    InvalidCertificate(String),
    /// The canonical codec could not encode a record.
    CborEncode(String),
    /// The canonical codec could not decode a record.
    CborDecode(String),
    /// The payload could not be compressed.
    Compression(String),
    /// The payload could not be expanded.
    Decompression(String),
    /// Reading or writing failed.
    Io(String),
    /// The header does not fit the rest of the envelope.
    InvalidHeader(String),
    /// A key could not be made or loaded.
    KeyGeneration(String),
    /// The input ends before the framing is complete.
    UnexpectedEof,
}

/// The mathematical content of an [`AletheiaError`]: the kind and its text.
pub enum ErrorView {
    InvalidMagic,
    UnsupportedVersion { major: u8, minor: u8 },
    InvalidSignature,
    CertificateChainInvalid(Seq<char>),
    CertificateNotFound(Seq<char>),
    UntrustedRoot,
    CertificateRevoked(Seq<char>),
    InvalidCertificate(Seq<char>),
    CborEncode(Seq<char>),
    CborDecode(Seq<char>),
    Compression(Seq<char>),
    Decompression(Seq<char>),
    Io(Seq<char>),
    InvalidHeader(Seq<char>),
    KeyGeneration(Seq<char>),
    UnexpectedEof,
}

impl View for AletheiaError {
    type V = ErrorView;

    open spec fn view(&self) -> ErrorView {
        match self {
            AletheiaError::InvalidMagic => ErrorView::InvalidMagic,
            AletheiaError::UnsupportedVersion { major, minor } => ErrorView::UnsupportedVersion {
                major: *major,
                minor: *minor,
            },
            AletheiaError::InvalidSignature => ErrorView::InvalidSignature,
            AletheiaError::CertificateChainInvalid(m) => ErrorView::CertificateChainInvalid(m@),
            AletheiaError::CertificateNotFound(m) => ErrorView::CertificateNotFound(m@),
            AletheiaError::UntrustedRoot => ErrorView::UntrustedRoot,
            AletheiaError::CertificateRevoked(m) => ErrorView::CertificateRevoked(m@),
            AletheiaError::InvalidCertificate(m) => ErrorView::InvalidCertificate(m@),
            AletheiaError::CborEncode(m) => ErrorView::CborEncode(m@),
            AletheiaError::CborDecode(m) => ErrorView::CborDecode(m@),
            AletheiaError::Compression(m) => ErrorView::Compression(m@),
            AletheiaError::Decompression(m) => ErrorView::Decompression(m@),
            AletheiaError::Io(m) => ErrorView::Io(m@),
            AletheiaError::InvalidHeader(m) => ErrorView::InvalidHeader(m@),
            AletheiaError::KeyGeneration(m) => ErrorView::KeyGeneration(m@),
            AletheiaError::UnexpectedEof => ErrorView::UnexpectedEof,
        }
    }
}

/// What the library's functions return: a value or an error.
pub type Result<T> = core::result::Result<T, AletheiaError>;

/// The mathematical content of a [`Result`]: a value's view or an error's.
pub type Outcome<T> = core::result::Result<T, ErrorView>;

/// The sentence that reports an error to a reader.
pub open spec fn message_text(e: ErrorView) -> Seq<char> {
    match e {
        ErrorView::InvalidMagic => "Invalid magic bytes: expected 'ALETHEIA'"@,
        ErrorView::UnsupportedVersion { major, minor } => "Unsupported version: "@ + decimal_text(
            major as nat,
        ) + "."@ + decimal_text(minor as nat),
        ErrorView::InvalidSignature => "Invalid signature"@,
        ErrorView::CertificateChainInvalid(m) => "Certificate chain verification failed: "@ + m,
        ErrorView::CertificateNotFound(m) => "Certificate not found for subject: "@ + m,
        ErrorView::UntrustedRoot => "Untrusted root certificate"@,
        ErrorView::CertificateRevoked(m) => "Certificate revoked: serial "@ + m,
        ErrorView::InvalidCertificate(m) => "Invalid certificate: "@ + m,
        ErrorView::CborEncode(m) => "CBOR encoding error: "@ + m,
        ErrorView::CborDecode(m) => "CBOR decoding error: "@ + m,
        ErrorView::Compression(m) => "Compression error: "@ + m,
        ErrorView::Decompression(m) => "Decompression error: "@ + m,
        ErrorView::Io(m) => "IO error: "@ + m,
        ErrorView::InvalidHeader(m) => "Invalid header: "@ + m,
        ErrorView::KeyGeneration(m) => "Key generation failed: "@ + m,
        ErrorView::UnexpectedEof => "Unexpected end of input"@,
    }
}

/// A lead followed by a detail.
fn with_detail(lead: &str, detail: &String) -> (r: String)
    ensures
        r@ == lead@ + detail@,
{
    let mut text = lead.to_owned();
    text.append(detail.as_str());
    text
}

impl AletheiaError {
    /// The sentence that reports the error to a reader.
    pub fn message(&self) -> (r: String)
        ensures
            r@ == message_text(self@),
    {
        match self {
            AletheiaError::InvalidMagic => "Invalid magic bytes: expected 'ALETHEIA'".to_owned(),
            AletheiaError::UnsupportedVersion { major, minor } => {
                let mut text = "Unsupported version: ".to_owned();
                text.append(decimal(*major as u64).as_str());
                text.append(".");
                text.append(decimal(*minor as u64).as_str());
                text
            },
            AletheiaError::InvalidSignature => "Invalid signature".to_owned(),
            AletheiaError::CertificateChainInvalid(m) => with_detail(
                "Certificate chain verification failed: ",
                m,
            ),
            AletheiaError::CertificateNotFound(m) => with_detail(
                "Certificate not found for subject: ",
                m,
            ),
            AletheiaError::UntrustedRoot => "Untrusted root certificate".to_owned(),
            AletheiaError::CertificateRevoked(m) => with_detail("Certificate revoked: serial ", m),
            AletheiaError::InvalidCertificate(m) => with_detail("Invalid certificate: ", m),
            AletheiaError::CborEncode(m) => with_detail("CBOR encoding error: ", m),
            AletheiaError::CborDecode(m) => with_detail("CBOR decoding error: ", m),
            AletheiaError::Compression(m) => with_detail("Compression error: ", m),
            AletheiaError::Decompression(m) => with_detail("Decompression error: ", m),
            AletheiaError::Io(m) => with_detail("IO error: ", m),
            AletheiaError::InvalidHeader(m) => with_detail("Invalid header: ", m),
            AletheiaError::KeyGeneration(m) => with_detail("Key generation failed: ", m),
            AletheiaError::UnexpectedEof => "Unexpected end of input".to_owned(),
        }
    }
}

} // verus!
