//! Signing: from a payload and a header to an envelope.

use crate::bytes::bytes_equal;
use crate::ca::SigningKeyPair;
use crate::canonical::{chain_encoding, clone_chain, encode_chain, encode_header, header_encoding};
use crate::codec::bytes_result_view;
use crate::compression::{compress_payload, compressed, compressible};
use crate::crypto::{ed25519_accepts, ed25519_signature};
use crate::endian::le_bytes;
use crate::error::{AletheiaError, ErrorView, Outcome, Result};
use crate::file::{fits_frame, file_result_view, framed, write_frame};
use crate::types::{
    chain_view, AletheiaFile, Certificate, CertificateView, FileView, Flags, Header, HeaderView,
};
use vstd::prelude::*;
use vstd::slice::slice_to_vec;

verus! {

/// The bytes that an envelope's signature covers: the framed header, payload
/// and chain behind the marker, this library's version and the flags. The
/// payload is the stored one, compressed where the flag says so.
pub open spec fn signature_input(
    flags: u16,
    header: Seq<u8>,
    payload: Seq<u8>,
    chain: Seq<u8>,
) -> Seq<u8> {
    framed(1, 0, flags, header, payload, chain)
}

/// The signed bytes of an envelope with the given content, or the error that
/// building them gives: the header and the chain are encoded canonically, and
/// each encoding must fit its four-byte length field.
pub open spec fn signed_bytes(
    flags: u16,
    header: HeaderView,
    payload: Seq<u8>,
    chain: Seq<CertificateView>,
) -> Outcome<Seq<u8>> {
    match header_encoding(header) {
        Err(e) => Err(e),
        Ok(header_bytes) => if header_bytes.len() > u32::MAX {
            Err(ErrorView::InvalidHeader("encoded header too long"@))
        } else {
            match chain_encoding(chain) {
                Err(e) => Err(e),
                Ok(chain_bytes) => if chain_bytes.len() > u32::MAX {
                    Err(ErrorView::CertificateChainInvalid("encoded chain too long"@))
                } else {
                    Ok(signature_input(flags, header_bytes, payload, chain_bytes))
                },
            }
        },
    }
}

/// Builds the bytes that an envelope's signature covers.
pub fn build_signature_input(
    flags: &Flags,
    header_bytes: &[u8],
    payload: &[u8],
    cert_chain_bytes: &[u8],
) -> (r: Vec<u8>)
    ensures
        r@ == signature_input(flags.bits(), header_bytes@, payload@, cert_chain_bytes@),
{
    write_frame(1, 0, flags, header_bytes, payload, cert_chain_bytes)
}

/// Builds the signed bytes of an envelope from its content.
pub fn build_signed_bytes(
    flags: &Flags,
    header: &Header,
    payload: &[u8],
    chain: &[Certificate],
) -> (r: Result<Vec<u8>>)
    ensures
        bytes_result_view(r) == signed_bytes(
            flags.bits(),
            header@,
            payload@,
            chain_view(chain@),
        ),
        r is Ok <==> fits_frame(header@, chain_view(chain@)),
        r matches Err(e) ==> e@ is InvalidHeader || e@ is CertificateChainInvalid,
{
    let header_bytes = match encode_header(header) {
        Ok(b) => b,
        Err(e) => {
            return Err(e);
        },
    };
    if header_bytes.len() > 0xffff_ffff {
        return Err(AletheiaError::InvalidHeader("encoded header too long".to_owned()));
    }
    let chain_bytes = match encode_chain(chain) {
        Ok(b) => b,
        Err(e) => {
            return Err(e);
        },
    };
    if chain_bytes.len() > 0xffff_ffff {
        return Err(AletheiaError::CertificateChainInvalid("encoded chain too long".to_owned()));
    }
    Ok(build_signature_input(flags, header_bytes.as_slice(), payload, chain_bytes.as_slice()))
}

/// Makes envelopes for one creator: a key pair and the chain that vouches for it.
pub struct Signer {
    signing_key: SigningKeyPair,
    certificate_chain: Vec<Certificate>,
    compress: bool,
}

/// The form in which a payload is stored: compressed where compression is
/// on, or the error where the payload has no compressed stored form.
pub open spec fn stored_form(compress: bool, payload: Seq<u8>) -> Outcome<Seq<u8>> {
    if compress {
        compressed(payload)
    } else {
        Ok(payload)
    }
}

/// The envelope that signing gives, or the error: the payload is stored
/// compressed where compression is on, and the signature is made over the
/// signed bytes of the stored content.
///
/// The compressed bytes are those that one build of the library makes. The
/// compressor picks its hash by the width of a pointer and by the byte
/// order, so a build for another kind of machine may store other bytes for
/// the same payload, and sign those: what is stated here of two calls holds
/// of two calls in one build.
pub open spec fn signing(
    secret: Seq<u8>,
    chain: Seq<CertificateView>,
    compress: bool,
    payload: Seq<u8>,
    header: HeaderView,
) -> Outcome<FileView> {
    let flags: u16 = if compress {
        1
    } else {
        0
    };
    match stored_form(compress, payload) {
        Err(e) => Err(e),
        Ok(stored) => match signed_bytes(flags, header, stored, chain) {
            Err(e) => Err(e),
            Ok(input) => Ok(
                FileView {
                    version_major: 1,
                    version_minor: 0,
                    flags,
                    header,
                    payload: stored,
                    certificate_chain: chain,
                    signature: ed25519_signature(secret, input),
                },
            ),
        },
    }
}

/// Whether the leaf key of an envelope accepts the envelope's signature over
/// its signed bytes.
pub open spec fn sealed(f: FileView) -> bool {
    &&& f.certificate_chain.len() > 0
    &&& signed_bytes(f.flags, f.header, f.payload, f.certificate_chain) matches Ok(input)
        && ed25519_accepts(f.certificate_chain[0].public_key, input, f.signature)
}

impl Signer {
    #[verifier::type_invariant]
    spec fn inv(self) -> bool {
        &&& self.certificate_chain@.len() > 0
        &&& self.signing_key.public_key_view() == self.certificate_chain@[0]@.public_key
    }

    /// The secret key that signs.
    pub closed spec fn secret_key(self) -> Seq<u8> {
        self.signing_key.secret_key()
    }

    /// The chain that goes into every envelope, leaf first.
    pub closed spec fn chain(self) -> Seq<CertificateView> {
        chain_view(self.certificate_chain@)
    }

    /// Whether payloads are stored compressed.
    pub closed spec fn compresses(self) -> bool {
        self.compress
    }

    /// A signer for a key pair and its chain, leaf first and root last. The
    /// chain must not be empty, and its first certificate must vouch for the
    /// key pair's public key.
    pub fn new(signing_key: SigningKeyPair, certificate_chain: Vec<Certificate>) -> (r:
        Result<Signer>)
        ensures
            match r {
                Ok(signer) => {
                    &&& certificate_chain@.len() > 0
                    &&& signing_key.public_key_view() == certificate_chain@[0]@.public_key
                    &&& signer.secret_key() == signing_key.secret_key()
                    &&& signer.chain() == chain_view(certificate_chain@)
                    &&& !signer.compresses()
                },
                Err(e) => if certificate_chain@.len() == 0 {
                    e@ == ErrorView::InvalidCertificate("Certificate chain cannot be empty"@)
                } else {
                    &&& signing_key.public_key_view() != certificate_chain@[0]@.public_key
                    &&& e@ == ErrorView::InvalidCertificate(
                        "Signing key does not match creator certificate"@,
                    )
                },
            },
    {
        if certificate_chain.len() == 0 {
            return Err(
                AletheiaError::InvalidCertificate("Certificate chain cannot be empty".to_owned()),
            );
        }
        let public_key = signing_key.public_key();
        if !bytes_equal(public_key.as_slice(), certificate_chain[0].public_key.as_slice()) {
            return Err(
                AletheiaError::InvalidCertificate(
                    "Signing key does not match creator certificate".to_owned(),
                ),
            );
        }
        Ok(Signer { signing_key, certificate_chain, compress: false })
    }

    /// The same signer with payload compression switched on.
    pub fn with_compression(self) -> (r: Signer)
        ensures
            r.compresses(),
            r.secret_key() == self.secret_key(),
            r.chain() == self.chain(),
    {
        proof {
            use_type_invariant(&self);
        }
        Signer {
            signing_key: self.signing_key,
            certificate_chain: self.certificate_chain,
            compress: true,
        }
    }

    /// Signs a payload with its header and returns the envelope.
    ///
    /// Succeeds exactly where the header's custom metadata is a map, the
    /// encodings of the header and of the chain fit their four-byte length
    /// fields, and, with compression on, the payload is one that the
    /// compressor takes and whose compressed form can be expanded again;
    /// where it is not, the error is `Compression`. A
    /// compressed payload is stored behind its own length as four
    /// little-endian bytes, and a payload shorter than four gibibytes is
    /// what `get_payload` gives for the envelope.
    ///
    /// With compression on, the stored bytes and with them the signature are
    /// those of this build: the compressor picks its hash by the width of a
    /// pointer and by the byte order, so a build for another kind of machine
    /// may store other bytes for the same payload. Each build's envelope
    /// verifies everywhere and gives the same payload back.
    pub fn sign(&self, payload: &[u8], header: Header) -> (r: Result<AletheiaFile>)
        ensures
            file_result_view(r) == signing(
                self.secret_key(),
                self.chain(),
                self.compresses(),
                payload@,
                header@,
            ),
            r is Ok <==> fits_frame(header@, self.chain()) && (self.compresses() ==> compressible(
                payload@,
            )),
            r matches Err(e) ==> e@ is InvalidHeader || e@ is CertificateChainInvalid
                || e@ is Compression,
            r matches Err(e) ==> (e@ is Compression <==> self.compresses() && !compressible(
                payload@,
            )),
            r matches Ok(file) ==> sealed(file@) && file@.signature.len() == 64,
            r matches Ok(file) ==> self.compresses() ==> file@.payload.len() >= 4
                && file@.payload.subrange(0, 4) == le_bytes(payload@.len(), 4),
            r matches Ok(file) ==> payload@.len() <= u32::MAX ==> file@.original_payload() == Ok::<
                Seq<u8>,
                ErrorView,
            >(payload@),
    {
        proof {
            use_type_invariant(self);
        }
        let flags = if self.compress {
            Flags::new().with_compression()
        } else {
            Flags::new()
        };
        assert(0u16 | 1 == 1) by (bit_vector);
        assert(1u16 & 1 == 1) by (bit_vector);
        assert(0u16 & 1 != 1) by (bit_vector);
        let stored: Vec<u8> = if self.compress {
            match compress_payload(payload) {
                Ok(stored) => stored,
                Err(e) => {
                    return Err(e);
                },
            }
        } else {
            slice_to_vec(payload)
        };
        let input = match build_signed_bytes(
            &flags,
            &header,
            stored.as_slice(),
            self.certificate_chain.as_slice(),
        ) {
            Ok(b) => b,
            Err(e) => {
                return Err(e);
            },
        };
        let signature = self.signing_key.sign(input.as_slice());
        let certificate_chain = clone_chain(&self.certificate_chain);
        assert(chain_view(certificate_chain@)[0] == certificate_chain@[0]@);
        assert(chain_view(self.certificate_chain@)[0] == self.certificate_chain@[0]@);
        Ok(
            AletheiaFile {
                version_major: 1,
                version_minor: 0,
                flags,
                header,
                payload: stored,
                certificate_chain,
                signature,
            },
        )
    }

    /// The identity of the creator: the subject of the first certificate.
    pub fn creator_id(&self) -> (r: &str)
        ensures
            self.chain().len() > 0,
            r@ == self.chain()[0].subject_id,
    {
        proof {
            use_type_invariant(self);
        }
        assert(chain_view(self.certificate_chain@)[0] == self.certificate_chain@[0]@);
        self.certificate_chain[0].subject_id.as_str()
    }
}

} // verus!
