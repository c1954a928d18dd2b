//! Certificate authorities and signing key pairs.

use crate::bytes::bytes_equal;
use crate::canonical::signable_encoding;
use crate::certificate::{generate_serial, signed_by};
use crate::clock::unix_time_now;
use crate::crypto::{
    check_public_key, derive_public_key, ed25519_accepts, ed25519_key_error, ed25519_public_key,
    ed25519_signature, is_public_key, random_secret_key, sign_message,
};
use crate::error::{AletheiaError, ErrorView, Outcome, Result};
use crate::reading::certificate_result_view;
use crate::types::{Certificate, CertificateView};
use vstd::prelude::*;
use vstd::slice::slice_to_vec;
use vstd::string::StringExecFns;

verus! {

/// Copies thirty-two bytes out of a slice.
fn secret_from_slice(bytes: &[u8]) -> (r: [u8; 32])
    requires
        bytes@.len() == 32,
    ensures
        r@ == bytes@,
{
    let mut secret = [0u8; 32];
    let mut i: usize = 0;
    while i < 32
        invariant
            0 <= i <= 32,
            bytes@.len() == 32,
            forall|j: int| 0 <= j < i ==> secret@[j] == bytes@[j],
        decreases 32 - i,
    {
        secret[i] = bytes[i];
        i = i + 1;
    }
    assert(secret@ =~= bytes@);
    secret
}

/// A key pair with which a creator signs.
pub struct SigningKeyPair {
    secret: [u8; 32],
}

impl SigningKeyPair {
    /// The thirty-two bytes of the secret key.
    pub closed spec fn secret_key(self) -> Seq<u8> {
        self.secret@
    }

    /// The bytes of the public key that belongs to the secret key.
    pub open spec fn public_key_view(self) -> Seq<u8> {
        ed25519_public_key(self.secret_key())
    }

    /// The key pair that holds the given secret key.
    pub fn from_secret(secret: [u8; 32]) -> (r: SigningKeyPair)
        ensures
            r.secret_key() == secret@,
    {
        SigningKeyPair { secret }
    }

    /// A fresh key pair from the operating system's random source.
    pub fn generate() -> (r: SigningKeyPair)
        ensures
            r.secret_key().len() == 32,
    {
        SigningKeyPair { secret: random_secret_key() }
    }

    /// Loads a key pair from the bytes of its secret key: exactly thirty-two.
    pub fn from_bytes(private_key: &[u8]) -> (r: Result<SigningKeyPair>)
        ensures
            match r {
                Ok(pair) => private_key@.len() == 32 && pair.secret_key() == private_key@,
                Err(e) => private_key@.len() != 32 && e@ == ErrorView::InvalidCertificate(
                    "Invalid private key length"@,
                ),
            },
    {
        if private_key.len() != 32 {
            return Err(AletheiaError::InvalidCertificate("Invalid private key length".to_owned()));
        }
        Ok(SigningKeyPair { secret: secret_from_slice(private_key) })
    }

    /// The public key bytes.
    pub fn public_key(&self) -> (r: Vec<u8>)
        ensures
            r@ == self.public_key_view(),
            r@.len() == 32,
            is_public_key(r@),
    {
        derive_public_key(&self.secret)
    }

    /// The secret key bytes, for storage.
    pub fn private_key_bytes(&self) -> (r: Vec<u8>)
        ensures
            r@ == self.secret_key(),
            r@.len() == 32,
    {
        slice_to_vec(self.secret.as_slice())
    }

    /// Signs data: sixty-four bytes that the public key accepts over the data.
    pub fn sign(&self, data: &[u8]) -> (r: Vec<u8>)
        ensures
            r@ == ed25519_signature(self.secret_key(), data@),
            r@.len() == 64,
            ed25519_accepts(self.public_key_view(), data@, r@),
    {
        sign_message(&self.secret, data)
    }
}

/// An authority: a secret key and the certificate that vouches for its public key.
pub struct CertificateAuthority {
    signing_key: [u8; 32],
    /// The authority's own certificate: self-signed for a root.
    pub certificate: Certificate,
}

/// The fields of a certificate that an issuer fills in before signing.
pub open spec fn unsigned_view(
    serial: Seq<u8>,
    subject_id: Seq<char>,
    subject_name: Seq<char>,
    public_key: Seq<u8>,
    issuer_id: Seq<char>,
    issued_at: i64,
    is_ca: bool,
) -> CertificateView {
    CertificateView {
        version: 1,
        serial,
        subject_id,
        subject_name,
        public_key,
        issuer_id,
        issued_at,
        is_ca,
        signature: Seq::empty(),
    }
}

/// The certificate that a secret key issues over the given fields: the fields
/// with the key's signature over their signable bytes; or the error that
/// encoding them gives.
pub open spec fn issued(secret: Seq<u8>, fields: CertificateView) -> Outcome<CertificateView> {
    match signable_encoding(fields) {
        Err(e) => Err(e),
        Ok(bytes) => Ok(CertificateView { signature: ed25519_signature(secret, bytes), ..fields }),
    }
}

/// The outcome of issuing to a subject: the key is validated first.
pub open spec fn issuance(
    secret: Seq<u8>,
    issuer_id: Seq<char>,
    serial: Seq<u8>,
    subject_id: Seq<char>,
    subject_name: Seq<char>,
    subject_public_key: Seq<u8>,
    is_ca: bool,
    issued_at: i64,
) -> Outcome<CertificateView> {
    match ed25519_key_error(subject_public_key) {
        Some(text) => Err(ErrorView::InvalidCertificate("Invalid public key: "@ + text)),
        None => issued(
            secret,
            unsigned_view(
                serial,
                subject_id,
                subject_name,
                subject_public_key,
                issuer_id,
                issued_at,
                is_ca,
            ),
        ),
    }
}

/// The signable bytes of a certificate do not depend on its signature.
pub proof fn lemma_signable_ignores_signature(c: CertificateView, signature: Seq<u8>)
    ensures
        signable_encoding(CertificateView { signature, ..c }) == signable_encoding(c),
{
}

/// Signs the fields of a certificate with a secret key.
fn sign_certificate(secret: &[u8; 32], fields: Certificate) -> (r: Certificate)
    ensures
        issued(secret@, fields@) == Ok::<CertificateView, ErrorView>(r@),
        signed_by(r@, ed25519_public_key(secret@)),
        r@.signature.len() == 64,
{
    let signable = fields.signable_data();
    let signature = sign_message(secret, signable.as_slice());
    let mut certificate = fields;
    certificate.signature = signature;
    proof {
        lemma_signable_ignores_signature(fields@, certificate@.signature);
        assert(certificate@ == (CertificateView { signature: certificate@.signature, ..fields@ }));
    }
    certificate
}

impl CertificateAuthority {
    /// The thirty-two bytes of the authority's secret key.
    pub closed spec fn secret_key(self) -> Seq<u8> {
        self.signing_key@
    }

    /// The bytes of the public key that belongs to the secret key.
    pub open spec fn public_key_view(self) -> Seq<u8> {
        ed25519_public_key(self.secret_key())
    }

    /// The content of the authority's certificate.
    pub closed spec fn certificate_view(self) -> CertificateView {
        self.certificate@
    }

    /// Whether the certificate vouches for the authority's own public key.
    pub open spec fn well_formed(self) -> bool {
        self.certificate_view().public_key == self.public_key_view()
    }

    /// The authority's certificate.
    pub fn certificate(&self) -> (r: &Certificate)
        ensures
            r@ == self.certificate_view(),
    {
        &self.certificate
    }

    /// Whether the authority is a root: its certificate names itself as
    /// issuer, may issue, and carries its own signature.
    pub open spec fn is_root(self) -> bool {
        &&& self.well_formed()
        &&& self.certificate_view().issuer_id == self.certificate_view().subject_id
        &&& self.certificate_view().is_ca
        &&& is_public_key(self.certificate_view().public_key)
        &&& self.certificate_view().signature.len() == 64
        &&& signed_by(self.certificate_view(), self.certificate_view().public_key)
    }

    /// Makes a root authority from a secret key and a serial number: its
    /// certificate names the subject as its own issuer, may issue, and is
    /// signed with the secret key.
    pub fn root_from_material(
        secret: [u8; 32],
        serial: Vec<u8>,
        subject_id: &str,
        subject_name: &str,
        issued_at: i64,
    ) -> (r: CertificateAuthority)
        ensures
            r.secret_key() == secret@,
            issued(
                secret@,
                unsigned_view(
                    serial@,
                    subject_id@,
                    subject_name@,
                    ed25519_public_key(secret@),
                    subject_id@,
                    issued_at,
                    true,
                ),
            ) == Ok::<CertificateView, ErrorView>(r.certificate_view()),
            r.is_root(),
    {
        let public_key = derive_public_key(&secret);
        let fields = Certificate {
            version: 1,
            serial,
            subject_id: subject_id.to_owned(),
            subject_name: subject_name.to_owned(),
            public_key,
            issuer_id: subject_id.to_owned(),
            issued_at,
            is_ca: true,
            signature: Vec::new(),
        };
        let certificate = sign_certificate(&secret, fields);
        CertificateAuthority { signing_key: secret, certificate }
    }

    /// Creates a root authority with a fresh key pair and serial number,
    /// issued at the given time: the authority that `root_from_material`
    /// makes of the key and the serial number that were drawn.
    pub fn new_root_with_timestamp(subject_id: &str, subject_name: &str, issued_at: i64) -> (r:
        CertificateAuthority)
        ensures
            r.is_root(),
            r.certificate_view().version == 1,
            r.certificate_view().serial.len() == 16,
            r.certificate_view().subject_id == subject_id@,
            r.certificate_view().subject_name == subject_name@,
            r.certificate_view().issued_at == issued_at,
            exists|secret: Seq<u8>, serial: Seq<u8>|
                secret.len() == 32 && serial.len() == 16 && r.secret_key() == secret
                    && #[trigger] issued(
                    secret,
                    unsigned_view(
                        serial,
                        subject_id@,
                        subject_name@,
                        ed25519_public_key(secret),
                        subject_id@,
                        issued_at,
                        true,
                    ),
                ) == Ok::<CertificateView, ErrorView>(r.certificate_view()),
    {
        let secret = random_secret_key();
        let serial = generate_serial();
        let ghost secret_view = secret@;
        let ghost serial_view = serial@;
        let r = Self::root_from_material(secret, serial, subject_id, subject_name, issued_at);
        assert(issued(
            secret_view,
            unsigned_view(
                serial_view,
                subject_id@,
                subject_name@,
                ed25519_public_key(secret_view),
                subject_id@,
                issued_at,
                true,
            ),
        ) == Ok::<CertificateView, ErrorView>(r.certificate_view()));
        r
    }

    /// Creates a root authority with a fresh key pair and serial number,
    /// issued now.
    pub fn new_root(subject_id: &str, subject_name: &str) -> (r: CertificateAuthority)
        ensures
            r.is_root(),
            r.certificate_view().version == 1,
            r.certificate_view().serial.len() == 16,
            r.certificate_view().subject_id == subject_id@,
            r.certificate_view().subject_name == subject_name@,
            exists|secret: Seq<u8>, serial: Seq<u8>, issued_at: i64|
                secret.len() == 32 && serial.len() == 16 && r.secret_key() == secret
                    && #[trigger] issued(
                    secret,
                    unsigned_view(
                        serial,
                        subject_id@,
                        subject_name@,
                        ed25519_public_key(secret),
                        subject_id@,
                        issued_at,
                        true,
                    ),
                ) == Ok::<CertificateView, ErrorView>(r.certificate_view()),
    {
        Self::new_root_with_timestamp(subject_id, subject_name, unix_time_now())
    }

    /// Loads an authority from its secret key and its certificate. The key
    /// must have thirty-two bytes, and its public key must be the one that the
    /// certificate vouches for.
    pub fn from_key_and_cert(signing_key_bytes: &[u8], certificate: Certificate) -> (r:
        Result<CertificateAuthority>)
        ensures
            match r {
                Ok(ca) => {
                    &&& signing_key_bytes@.len() == 32
                    &&& ed25519_public_key(signing_key_bytes@) == certificate@.public_key
                    &&& ca.secret_key() == signing_key_bytes@
                    &&& ca.certificate_view() == certificate@
                    &&& ca.well_formed()
                },
                Err(e) => if signing_key_bytes@.len() != 32 {
                    e@ == ErrorView::InvalidCertificate("Invalid signing key length"@)
                } else {
                    &&& ed25519_public_key(signing_key_bytes@) != certificate@.public_key
                    &&& e@ == ErrorView::InvalidCertificate(
                        "Signing key does not match certificate public key"@,
                    )
                },
            },
    {
        if signing_key_bytes.len() != 32 {
            return Err(AletheiaError::InvalidCertificate("Invalid signing key length".to_owned()));
        }
        let secret = secret_from_slice(signing_key_bytes);
        let public_key = derive_public_key(&secret);
        if !bytes_equal(public_key.as_slice(), certificate.public_key.as_slice()) {
            return Err(
                AletheiaError::InvalidCertificate(
                    "Signing key does not match certificate public key".to_owned(),
                ),
            );
        }
        Ok(CertificateAuthority { signing_key: secret, certificate })
    }

    /// The authority's public key bytes.
    pub fn public_key(&self) -> (r: Vec<u8>)
        ensures
            r@ == self.public_key_view(),
            r@.len() == 32,
            is_public_key(r@),
    {
        derive_public_key(&self.signing_key)
    }

    /// The authority's secret key bytes, for storage.
    pub fn private_key_bytes(&self) -> (r: Vec<u8>)
        ensures
            r@ == self.secret_key(),
            r@.len() == 32,
    {
        slice_to_vec(self.signing_key.as_slice())
    }

    /// Issues a certificate with the given serial number: the subject's key is
    /// validated, then the certificate is filled in with this authority as
    /// issuer and signed with its secret key. Fails exactly where the
    /// subject's key is no public key.
    pub fn issue_with_serial(
        &self,
        serial: Vec<u8>,
        subject_id: &str,
        subject_name: &str,
        subject_public_key: &[u8],
        is_ca: bool,
        issued_at: i64,
    ) -> (r: Result<Certificate>)
        ensures
            certificate_result_view(r) == issuance(
                self.secret_key(),
                self.certificate_view().subject_id,
                serial@,
                subject_id@,
                subject_name@,
                subject_public_key@,
                is_ca,
                issued_at,
            ),
            r is Ok <==> is_public_key(subject_public_key@),
            r matches Ok(c) ==> signed_by(c@, self.public_key_view()) && c@.signature.len() == 64
                && is_public_key(c@.public_key),
            subject_public_key@.len() != 32 ==> r is Err && r->Err_0@ is InvalidCertificate,
    {
        match check_public_key(subject_public_key) {
            Ok(_) => {},
            Err(text) => {
                let mut message = "Invalid public key: ".to_owned();
                message.append(text.as_str());
                return Err(AletheiaError::InvalidCertificate(message));
            },
        }
        let public_key = slice_to_vec(subject_public_key);
        let fields = Certificate {
            version: 1,
            serial,
            subject_id: subject_id.to_owned(),
            subject_name: subject_name.to_owned(),
            public_key,
            issuer_id: self.certificate.subject_id.clone(),
            issued_at,
            is_ca,
            signature: Vec::new(),
        };
        Ok(sign_certificate(&self.signing_key, fields))
    }

    /// Issues a certificate to a subject, with a fresh serial number and the
    /// given time of issuance: the certificate that `issue_with_serial` gives
    /// for the serial number that was drawn. Succeeds exactly where the
    /// subject's key is a public key, and fails with `InvalidCertificate`
    /// otherwise.
    pub fn issue_certificate_with_timestamp(
        &self,
        subject_id: &str,
        subject_name: &str,
        subject_public_key: &[u8],
        is_ca: bool,
        issued_at: i64,
    ) -> (r: Result<Certificate>)
        ensures
            r is Ok <==> is_public_key(subject_public_key@),
            match r {
                Ok(c) => {
                    &&& c@.version == 1
                    &&& c@.serial.len() == 16
                    &&& c@.subject_id == subject_id@
                    &&& c@.subject_name == subject_name@
                    &&& c@.public_key == subject_public_key@
                    &&& c@.issuer_id == self.certificate_view().subject_id
                    &&& c@.issued_at == issued_at
                    &&& c@.is_ca == is_ca
                    &&& c@.signature.len() == 64
                    &&& signed_by(c@, self.public_key_view())
                },
                Err(e) => e@ == ErrorView::InvalidCertificate(
                    "Invalid public key: "@ + ed25519_key_error(subject_public_key@)->0,
                ),
            },
            subject_public_key@.len() != 32 ==> r is Err && r->Err_0@ is InvalidCertificate,
            exists|serial: Seq<u8>|
                serial.len() == 16 && certificate_result_view(r) == #[trigger] issuance(
                    self.secret_key(),
                    self.certificate_view().subject_id,
                    serial,
                    subject_id@,
                    subject_name@,
                    subject_public_key@,
                    is_ca,
                    issued_at,
                ),
    {
        let serial = generate_serial();
        let ghost serial_view = serial@;
        let r = self.issue_with_serial(
            serial,
            subject_id,
            subject_name,
            subject_public_key,
            is_ca,
            issued_at,
        );
        assert(certificate_result_view(r) == issuance(
            self.secret_key(),
            self.certificate_view().subject_id,
            serial_view,
            subject_id@,
            subject_name@,
            subject_public_key@,
            is_ca,
            issued_at,
        ));
        r
    }

    /// Issues a certificate to a subject, with a fresh serial number, now.
    /// Succeeds exactly where the subject's key is a public key, and fails
    /// with `InvalidCertificate` otherwise.
    pub fn issue_certificate(
        &self,
        subject_id: &str,
        subject_name: &str,
        subject_public_key: &[u8],
        is_ca: bool,
    ) -> (r: Result<Certificate>)
        ensures
            r is Ok <==> is_public_key(subject_public_key@),
            match r {
                Ok(c) => {
                    &&& c@.version == 1
                    &&& c@.serial.len() == 16
                    &&& c@.subject_id == subject_id@
                    &&& c@.subject_name == subject_name@
                    &&& c@.public_key == subject_public_key@
                    &&& c@.issuer_id == self.certificate_view().subject_id
                    &&& c@.is_ca == is_ca
                    &&& c@.signature.len() == 64
                    &&& signed_by(c@, self.public_key_view())
                },
                Err(e) => e@ == ErrorView::InvalidCertificate(
                    "Invalid public key: "@ + ed25519_key_error(subject_public_key@)->0,
                ),
            },
            subject_public_key@.len() != 32 ==> r is Err && r->Err_0@ is InvalidCertificate,
            exists|serial: Seq<u8>, issued_at: i64|
                serial.len() == 16 && certificate_result_view(r) == #[trigger] issuance(
                    self.secret_key(),
                    self.certificate_view().subject_id,
                    serial,
                    subject_id@,
                    subject_name@,
                    subject_public_key@,
                    is_ca,
                    issued_at,
                ),
    {
        self.issue_certificate_with_timestamp(
            subject_id,
            subject_name,
            subject_public_key,
            is_ca,
            unix_time_now(),
        )
    }
}

} // verus!
