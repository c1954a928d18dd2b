//! Operations from bytes to bytes, for front ends that hold no keys or
//! envelopes of their own: locating the sections of an envelope, and signing
//! under an authority in one step.

use crate::ca::{issuance, CertificateAuthority, SigningKeyPair};
use crate::canonical::{
    chain_encoding, clone_certificate, encode_chain, encode_header, header_encoding,
};
use crate::certificate::generate_serial;
use crate::crypto::{ed25519_public_key, random_secret_key};
use crate::error::{AletheiaError, ErrorView, Outcome, Result};
use crate::file::{envelope_bytes, from_bytes, read_envelope, to_bytes};
use crate::reading::{certificate_decoding, decode_certificate};
use crate::signer::{signing, Signer};
use crate::types::{
    chain_view, text_view, AletheiaFile, Certificate, CertificateView, FileView, Header, HeaderView,
};
use vstd::prelude::*;

verus! {

/// Where the sections of an envelope lie in its bytes: each as the offsets of
/// its first byte and of the byte after its last. The header, the payload and
/// the chain are counted with their length fields.
#[derive(Debug, Clone, Copy, PartialEq, Eq)]
pub struct SectionRanges {
    pub magic: (usize, usize),
    pub version: (usize, usize),
    pub flags: (usize, usize),
    pub header: (usize, usize),
    pub payload: (usize, usize),
    pub cert_chain: (usize, usize),
    pub signature: (usize, usize),
}

/// The offset behind the signature of an envelope whose encoded header,
/// stored payload and encoded chain have the given lengths.
pub open spec fn envelope_length(header_len: int, payload_len: int, chain_len: int) -> int {
    12 + 4 + header_len + 8 + payload_len + 4 + chain_len + 64
}

/// Whether the ranges are those of an envelope with the given lengths.
pub open spec fn ranges_match(
    r: SectionRanges,
    header_len: int,
    payload_len: int,
    chain_len: int,
) -> bool {
    &&& r.magic == (0usize, 8usize)
    &&& r.version == (8usize, 10usize)
    &&& r.flags == (10usize, 12usize)
    &&& r.header.0 == 12 && r.header.1 == 16 + header_len
    &&& r.payload.0 == r.header.1 && r.payload.1 == r.payload.0 + 8 + payload_len
    &&& r.cert_chain.0 == r.payload.1 && r.cert_chain.1 == r.cert_chain.0 + 4 + chain_len
    &&& r.signature.0 == r.cert_chain.1 && r.signature.1 == r.signature.0 + 64
}

/// Locates the sections of an envelope from the lengths of its encoded
/// header, stored payload and encoded chain. Gives nothing where the envelope
/// would not fit the address space.
pub fn locate_sections(header_len: usize, payload_len: usize, chain_len: usize) -> (r: Option<
    SectionRanges,
>)
    ensures
        match r {
            Some(ranges) => ranges_match(
                ranges,
                header_len as int,
                payload_len as int,
                chain_len as int,
            ),
            None => envelope_length(header_len as int, payload_len as int, chain_len as int)
                > usize::MAX,
        },
{
    let header_end = match header_len.checked_add(16) {
        Some(v) => v,
        None => {
            return None;
        },
    };
    let payload_end = match payload_len.checked_add(8) {
        Some(v) => match v.checked_add(header_end) {
            Some(w) => w,
            None => {
                return None;
            },
        },
        None => {
            return None;
        },
    };
    let chain_end = match chain_len.checked_add(4) {
        Some(v) => match v.checked_add(payload_end) {
            Some(w) => w,
            None => {
                return None;
            },
        },
        None => {
            return None;
        },
    };
    let end = match chain_end.checked_add(64) {
        Some(v) => v,
        None => {
            return None;
        },
    };
    Some(
        SectionRanges {
            magic: (0, 8),
            version: (8, 10),
            flags: (10, 12),
            header: (12, header_end),
            payload: (header_end, payload_end),
            cert_chain: (payload_end, chain_end),
            signature: (chain_end, end),
        },
    )
}

/// Reads an envelope and locates the sections that writing it again would
/// give. Fails where reading fails, and where the sections would not fit the
/// address space.
pub fn parse_with_ranges(data: &[u8]) -> (r: Result<(AletheiaFile, SectionRanges)>)
    ensures
        match r {
            Ok((file, ranges)) => {
                &&& read_envelope(data@) == Ok::<FileView, ErrorView>(file@)
                &&& header_encoding(file@.header) matches Ok(header)
                &&& chain_encoding(file@.certificate_chain) matches Ok(chain)
                &&& ranges_match(
                    ranges,
                    header.len() as int,
                    file@.payload.len() as int,
                    chain.len() as int,
                )
            },
            Err(e) => match read_envelope(data@) {
                Err(inner) => e@ == inner,
                Ok(file) => {
                    &&& header_encoding(file.header) matches Ok(header)
                    &&& chain_encoding(file.certificate_chain) matches Ok(chain)
                    &&& envelope_length(
                        header.len() as int,
                        file.payload.len() as int,
                        chain.len() as int,
                    ) > usize::MAX
                    &&& e@ == ErrorView::InvalidHeader(
                        "envelope sections exceed the address space"@,
                    )
                },
            },
        },
{
    let file = match from_bytes(data) {
        Ok(f) => f,
        Err(e) => {
            return Err(e);
        },
    };
    // What was read has a header and a chain that encode.
    let header = match encode_header(&file.header) {
        Ok(b) => b,
        Err(_) => unreached(),
    };
    let chain = match encode_chain(file.certificate_chain.as_slice()) {
        Ok(b) => b,
        Err(_) => unreached(),
    };
    match locate_sections(header.len(), file.payload.len(), chain.len()) {
        Some(ranges) => Ok((file, ranges)),
        None => Err(
            AletheiaError::InvalidHeader("envelope sections exceed the address space".to_owned()),
        ),
    }
}

/// The header of a one-step signature.
pub open spec fn one_step_header(
    creator_id: Seq<char>,
    timestamp: i64,
    content_type: Option<Seq<char>>,
    original_name: Option<Seq<char>>,
    description: Option<Seq<char>>,
) -> HeaderView {
    HeaderView {
        content_type,
        signed_at: timestamp,
        creator_id,
        original_name,
        description,
        custom: None,
    }
}

/// The steps of signing under an authority, in their order.
#[derive(Debug, Clone, Copy, PartialEq, Eq, Structural)]
pub enum SigningStep {
    /// The authority's certificate is decoded.
    ParseCertificate,
    /// The authority is loaded from its key and its certificate.
    CreateAuthority,
    /// The authority issues the one-time certificate.
    IssueCertificate,
    /// The payload is signed.
    SignFile,
    /// The envelope is written.
    SerializeFile,
}

impl SigningStep {
    /// The words that report a fault at this step.
    pub fn lead(&self) -> (r: &'static str)
        ensures
            r@ == (match self {
                SigningStep::ParseCertificate => "Failed to parse CA certificate"@,
                SigningStep::CreateAuthority => "Failed to create CA"@,
                SigningStep::IssueCertificate => "Failed to issue certificate"@,
                SigningStep::SignFile => "Failed to sign file"@,
                SigningStep::SerializeFile => "Failed to serialize file"@,
            }),
    {
        match self {
            SigningStep::ParseCertificate => "Failed to parse CA certificate",
            SigningStep::CreateAuthority => "Failed to create CA",
            SigningStep::IssueCertificate => "Failed to issue certificate",
            SigningStep::SignFile => "Failed to sign file",
            SigningStep::SerializeFile => "Failed to serialize file",
        }
    }
}

/// A fault of signing under an authority: the step at which it was met, and
/// the error.
#[derive(Debug)]
pub struct SigningFault {
    pub step: SigningStep,
    pub error: AletheiaError,
}

/// The view of signed bytes or of the fault.
pub open spec fn fault_result_view(
    r: core::result::Result<Vec<u8>, SigningFault>,
) -> core::result::Result<Seq<u8>, (SigningStep, ErrorView)> {
    match r {
        Ok(bytes) => Ok(bytes@),
        Err(fault) => Err((fault.step, fault.error@)),
    }
}

/// A fault at a step, or the value.
pub open spec fn at_step<T>(step: SigningStep, outcome: Outcome<T>) -> core::result::Result<
    T,
    (SigningStep, ErrorView),
> {
    match outcome {
        Ok(value) => Ok(value),
        Err(e) => Err((step, e)),
    }
}

/// The authority that is loaded from a key and a decoded certificate: the
/// key must have thirty-two bytes and belong to the certificate.
pub open spec fn authority_loading(ca_private_key: Seq<u8>, ca_cert: CertificateView) -> Outcome<
    (),
> {
    if ca_private_key.len() != 32 {
        Err(ErrorView::InvalidCertificate("Invalid signing key length"@))
    } else if ed25519_public_key(ca_private_key) != ca_cert.public_key {
        Err(ErrorView::InvalidCertificate("Signing key does not match certificate public key"@))
    } else {
        Ok(())
    }
}

/// The bytes that signing under an authority gives, for the given secret key
/// and serial number of the one-time certificate, or the first fault with its
/// step: the authority's certificate is decoded, the authority is loaded from
/// its key and that certificate, it issues a certificate to the one-time key
/// in the creator's name, the payload is signed with that key under the chain
/// of the two certificates, and the envelope is written.
pub open spec fn authority_signing(
    payload: Seq<u8>,
    ca_private_key: Seq<u8>,
    ca_cert_cbor: Seq<u8>,
    header: HeaderView,
    compress: bool,
    secret: Seq<u8>,
    serial: Seq<u8>,
) -> core::result::Result<Seq<u8>, (SigningStep, ErrorView)> {
    match at_step(SigningStep::ParseCertificate, certificate_decoding(ca_cert_cbor)) {
        Err(fault) => Err(fault),
        Ok(ca_cert) => match at_step(
            SigningStep::CreateAuthority,
            authority_loading(ca_private_key, ca_cert),
        ) {
            Err(fault) => Err(fault),
            Ok(_) => match at_step(
                SigningStep::IssueCertificate,
                issuance(
                    ca_private_key,
                    ca_cert.subject_id,
                    serial,
                    header.creator_id,
                    header.creator_id,
                    ed25519_public_key(secret),
                    false,
                    header.signed_at,
                ),
            ) {
                Err(fault) => Err(fault),
                Ok(leaf) => match at_step(
                    SigningStep::SignFile,
                    signing(secret, seq![leaf, ca_cert], compress, payload, header),
                ) {
                    Err(fault) => Err(fault),
                    Ok(file) => at_step(SigningStep::SerializeFile, envelope_bytes(file)),
                },
            },
        },
    }
}

/// Signs under an authority with the given one-time secret key and serial
/// number. A fault can be met at three steps only: where the authority's
/// certificate does not decode, where its key has the wrong length or does
/// not belong to the certificate, and where the header or the chain cannot be
/// framed or the payload has no compressed stored form.
pub fn sign_with_authority_using(
    payload: &[u8],
    ca_private_key: &[u8],
    ca_cert_cbor: &[u8],
    header: Header,
    compress: bool,
    secret: [u8; 32],
    serial: Vec<u8>,
) -> (r: core::result::Result<Vec<u8>, SigningFault>)
    ensures
        fault_result_view(r) == authority_signing(
            payload@,
            ca_private_key@,
            ca_cert_cbor@,
            header@,
            compress,
            secret@,
            serial@,
        ),
        r matches Err(fault) ==> fault.step == SigningStep::ParseCertificate || fault.step
            == SigningStep::CreateAuthority || fault.step == SigningStep::SignFile,
{
    let ca_cert = match decode_certificate(ca_cert_cbor) {
        Ok(c) => c,
        Err(error) => {
            return Err(SigningFault { step: SigningStep::ParseCertificate, error });
        },
    };
    let ca = match CertificateAuthority::from_key_and_cert(
        ca_private_key,
        clone_certificate(&ca_cert),
    ) {
        Ok(ca) => ca,
        Err(error) => {
            return Err(SigningFault { step: SigningStep::CreateAuthority, error });
        },
    };
    let one_time_key = SigningKeyPair::from_secret(secret);
    let public_key = one_time_key.public_key();
    // The key of a key pair is a public key, so the authority issues.
    let leaf = match ca.issue_with_serial(
        serial,
        header.creator_id.as_str(),
        header.creator_id.as_str(),
        public_key.as_slice(),
        false,
        header.signed_at,
    ) {
        Ok(c) => c,
        Err(_) => unreached(),
    };
    let mut chain: Vec<Certificate> = Vec::new();
    chain.push(leaf);
    chain.push(ca_cert);
    assert(chain_view(chain@) =~= seq![chain@[0]@, chain@[1]@]);
    // The chain is not empty, and its first certificate holds the one-time key.
    let signer = match Signer::new(one_time_key, chain) {
        Ok(s) => s,
        Err(_) => unreached(),
    };
    let signer = if compress {
        signer.with_compression()
    } else {
        signer
    };
    let file = match signer.sign(payload, header) {
        Ok(f) => f,
        Err(error) => {
            return Err(SigningFault { step: SigningStep::SignFile, error });
        },
    };
    // What was signed can be framed, so it can be written.
    match to_bytes(&file) {
        Ok(bytes) => Ok(bytes),
        Err(_) => unreached(),
    }
}

/// The header of a one-step signature.
pub fn build_header(
    creator_id: &str,
    timestamp: i64,
    content_type: Option<String>,
    original_name: Option<String>,
    description: Option<String>,
) -> (r: Header)
    ensures
        r@ == one_step_header(
            creator_id@,
            timestamp,
            text_view(content_type),
            text_view(original_name),
            text_view(description),
        ),
{
    let mut header = Header::new_with_timestamp(creator_id, timestamp);
    header.content_type = content_type;
    header.original_name = original_name;
    header.description = description;
    header
}

/// Signs a payload under an authority in one step: a one-time key pair is
/// made, the authority issues a certificate to it in the creator's name, and
/// the payload is signed with it. Returns the bytes of the envelope.
///
/// A fault can be met at three steps only: where the authority's certificate
/// does not decode, where its key has the wrong length or does not belong to
/// the certificate, and where the header or the chain cannot be framed or
/// the payload has no compressed stored form.
pub fn sign_file_with_ca(
    payload: &[u8],
    ca_private_key: &[u8],
    ca_cert_cbor: &[u8],
    creator_id: &str,
    content_type: Option<String>,
    original_name: Option<String>,
    description: Option<String>,
    compress: bool,
    timestamp: i64,
) -> (r: core::result::Result<Vec<u8>, SigningFault>)
    ensures
        r matches Err(fault) ==> fault.step == SigningStep::ParseCertificate || fault.step
            == SigningStep::CreateAuthority || fault.step == SigningStep::SignFile,
        exists|secret: Seq<u8>, serial: Seq<u8>|
            secret.len() == 32 && serial.len() == 16 && fault_result_view(r)
                == #[trigger] authority_signing(
                payload@,
                ca_private_key@,
                ca_cert_cbor@,
                one_step_header(
                    creator_id@,
                    timestamp,
                    text_view(content_type),
                    text_view(original_name),
                    text_view(description),
                ),
                compress,
                secret,
                serial,
            ),
{
    let header = build_header(creator_id, timestamp, content_type, original_name, description);
    let secret = random_secret_key();
    let serial = generate_serial();
    let ghost secret_view = secret@;
    let ghost serial_view = serial@;
    let r = sign_with_authority_using(
        payload,
        ca_private_key,
        ca_cert_cbor,
        header,
        compress,
        secret,
        serial,
    );
    assert(fault_result_view(r) == authority_signing(
        payload@,
        ca_private_key@,
        ca_cert_cbor@,
        one_step_header(
            creator_id@,
            timestamp,
            text_view(content_type),
            text_view(original_name),
            text_view(description),
        ),
        compress,
        secret_view,
        serial_view,
    ));
    r
}

} // verus!
