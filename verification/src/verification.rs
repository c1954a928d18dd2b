//! Verification: from an envelope and a trust set to a verdict.

use crate::ca::CertificateAuthority;
use crate::canonical::{chain_encoding, chain_model, header_encoding, header_model};
use crate::codec::codec_round_trips;
use crate::roundtrip::{
    lemma_chain_model_injective, lemma_encoding_injective, lemma_header_model_injective,
};
use crate::certificate::{
    chain_check, check_view, is_chain_fault, key_parse, keys_view, lemma_untrusted_root_fails,
    lemma_untrusted_root_reported, lemma_well_issued_chain_passes, link_check, signed_by,
    unit_result_view, verify_certificate_chain, well_issued,
};
use crate::crypto::{
    check_public_key, ed25519_accepts, ed25519_key_error, is_public_key, signature_accepted,
};
use crate::error::{AletheiaError, ErrorView, Outcome, Result};
use crate::file::{fits_frame, framed, lemma_frame_round_trip};
use crate::signer::{build_signed_bytes, sealed, signature_input, signed_bytes};
use crate::types::{
    text_view, AletheiaFile, Certificate, CertificateView, FileView, Header, HeaderView,
};
use vstd::prelude::*;
use vstd::string::StringExecFns;

verus! {

/// What a successful verification reports.
#[derive(Debug, Clone)]
pub struct VerificationResult {
    /// Always true in a returned result.
    pub valid: bool,
    /// Identity of the signer, from the leaf certificate.
    pub creator_id: String,
    /// Name of the signer, from the leaf certificate.
    pub creator_name: String,
    /// Unix time of signing, from the header.
    pub signed_at: i64,
    /// Description from the header.
    pub description: Option<String>,
}

/// The mathematical content of a [`VerificationResult`].
pub struct ResultView {
    pub valid: bool,
    pub creator_id: Seq<char>,
    pub creator_name: Seq<char>,
    pub signed_at: i64,
    pub description: Option<Seq<char>>,
}

impl View for VerificationResult {
    type V = ResultView;

    open spec fn view(&self) -> ResultView {
        ResultView {
            valid: self.valid,
            creator_id: self.creator_id@,
            creator_name: self.creator_name@,
            signed_at: self.signed_at,
            description: text_view(self.description),
        }
    }
}

/// The view of a verdict or its error.
pub open spec fn verdict_view(
    r: Result<VerificationResult>,
) -> Outcome<ResultView> {
    match r {
        Ok(v) => Ok(v@),
        Err(e) => Err(e@),
    }
}

/// What a verified envelope reports: the leaf certificate's subject and the
/// header's time and description.
pub open spec fn report(f: FileView) -> ResultView {
    report_of(f.certificate_chain[0], f.header)
}

/// What a verified envelope reports, from its leaf certificate and header.
pub open spec fn report_of(leaf: CertificateView, header: HeaderView) -> ResultView {
    ResultView {
        valid: true,
        creator_id: leaf.subject_id,
        creator_name: leaf.subject_name,
        signed_at: header.signed_at,
        description: header.description,
    }
}

/// The verdict on an envelope whose chain has passed and whose signed bytes
/// were rebuilt, given what the signature scheme said of the leaf key and of
/// the signature: a key that does not parse decides first.
pub open spec fn envelope_verdict(
    leaf: CertificateView,
    header: HeaderView,
    key_check: core::result::Result<(), Seq<char>>,
    accepted: bool,
) -> Outcome<ResultView> {
    match key_check {
        Err(text) => Err(ErrorView::InvalidCertificate("Invalid public key: "@ + text)),
        Ok(_) => if accepted {
            Ok(report_of(leaf, header))
        } else {
            Err(ErrorView::InvalidSignature)
        },
    }
}

/// The verdict on an envelope under a trust set: the chain is checked first,
/// then the signed bytes are rebuilt from the envelope's content, then the
/// leaf key is parsed, then the signature is verified over the signed bytes.
pub open spec fn verification(f: FileView, roots: Seq<Seq<u8>>) -> Outcome<ResultView> {
    match chain_check(f.certificate_chain, roots) {
        Err(e) => Err(e),
        Ok(_) => match signed_bytes(f.flags, f.header, f.payload, f.certificate_chain) {
            Err(e) => Err(e),
            Ok(input) => envelope_verdict(
                f.certificate_chain[0],
                f.header,
                key_parse(f.certificate_chain[0].public_key),
                ed25519_accepts(f.certificate_chain[0].public_key, input, f.signature),
            ),
        },
    }
}

/// Decides the verdict on an envelope whose chain has passed, from its leaf
/// certificate and header and from what the signature scheme said of the
/// leaf key and of the signature.
pub fn judge_envelope(
    leaf: &Certificate,
    header: &Header,
    key_check: core::result::Result<(), String>,
    accepted: bool,
) -> (r: Result<VerificationResult>)
    ensures
        verdict_view(r) == envelope_verdict(leaf@, header@, check_view(key_check), accepted),
        r is Ok <==> key_check is Ok && accepted,
        r matches Err(e) ==> e@ is InvalidCertificate || e@ is InvalidSignature,
{
    match key_check {
        Ok(_) => {},
        Err(text) => {
            let mut message = "Invalid public key: ".to_owned();
            message.append(text.as_str());
            return Err(AletheiaError::InvalidCertificate(message));
        },
    }
    if !accepted {
        return Err(AletheiaError::InvalidSignature);
    }
    Ok(
        VerificationResult {
            valid: true,
            creator_id: leaf.subject_id.clone(),
            creator_name: leaf.subject_name.clone(),
            signed_at: header.signed_at,
            description: header.description.clone(),
        },
    )
}

/// Verifies an envelope against a set of trusted root keys.
///
/// Succeeds exactly where the chain checks out against the trust set and the
/// leaf key accepts the signature over the signed bytes rebuilt from the
/// envelope's flags, header, stored payload and chain. No flag bit and no
/// version field decides anything by itself. A signature that has not
/// sixty-four bytes is never accepted.
pub fn verify(file: &AletheiaFile, trusted_root_keys: &[Vec<u8>]) -> (r: Result<VerificationResult>)
    ensures
        verdict_view(r) == verification(file@, keys_view(trusted_root_keys@)),
        r is Ok ==> file@.signature.len() == 64,
        r matches Err(e) ==> is_chain_fault(e@) || e@ is InvalidHeader || e@ is InvalidSignature,
        chain_check(file@.certificate_chain, keys_view(trusted_root_keys@)) is Ok && fits_frame(
            file@.header,
            file@.certificate_chain,
        ) && is_public_key(file@.certificate_chain[0].public_key) && file@.signature.len() != 64
            ==> r is Err && r->Err_0@ == ErrorView::InvalidSignature,
{
    match verify_certificate_chain(file.certificate_chain.as_slice(), trusted_root_keys) {
        Ok(_) => {},
        Err(e) => {
            return Err(e);
        },
    }
    let creator_cert = &file.certificate_chain[0];
    assert(file@.certificate_chain[0] == creator_cert@);
    let input = match build_signed_bytes(
        &file.flags,
        &file.header,
        file.payload.as_slice(),
        file.certificate_chain.as_slice(),
    ) {
        Ok(b) => b,
        Err(e) => {
            return Err(e);
        },
    };
    let key_check = check_public_key(creator_cert.public_key.as_slice());
    let accepted = signature_accepted(
        creator_cert.public_key.as_slice(),
        input.as_slice(),
        file.signature.as_slice(),
    );
    judge_envelope(creator_cert, &file.header, key_check, accepted)
}

/// The text that reports a header whose creator is not the leaf's subject.
pub open spec fn creator_mismatch_message(header: Seq<char>, certificate: Seq<char>) -> Seq<char> {
    "Creator ID mismatch: header says '"@ + header + "', certificate says '"@ + certificate + "'"@
}

/// The outcome of the structural checks, in their order: the major version,
/// the chain's presence, the signature's length, the creator's identity.
pub open spec fn structure_check(f: FileView) -> Outcome<()> {
    if f.version_major != 1 {
        Err(ErrorView::UnsupportedVersion { major: f.version_major, minor: f.version_minor })
    } else if f.certificate_chain.len() == 0 {
        Err(ErrorView::CertificateChainInvalid("Empty certificate chain"@))
    } else if f.signature.len() != 64 {
        Err(ErrorView::InvalidSignature)
    } else if f.header.creator_id != f.certificate_chain[0].subject_id {
        Err(
            ErrorView::InvalidHeader(
                creator_mismatch_message(f.header.creator_id, f.certificate_chain[0].subject_id),
            ),
        )
    } else {
        Ok(())
    }
}

/// Checks the structure of an envelope without any cryptography.
pub fn validate_structure(file: &AletheiaFile) -> (r: Result<()>)
    ensures
        unit_result_view(r) == structure_check(file@),
{
    if file.version_major != 1 {
        return Err(
            AletheiaError::UnsupportedVersion {
                major: file.version_major,
                minor: file.version_minor,
            },
        );
    }
    if file.certificate_chain.len() == 0 {
        return Err(AletheiaError::CertificateChainInvalid("Empty certificate chain".to_owned()));
    }
    if file.signature.len() != 64 {
        return Err(AletheiaError::InvalidSignature);
    }
    let creator_cert = &file.certificate_chain[0];
    assert(file@.certificate_chain[0] == creator_cert@);
    if file.header.creator_id != creator_cert.subject_id {
        let mut message = "Creator ID mismatch: header says '".to_owned();
        message.append(file.header.creator_id.as_str());
        message.append("', certificate says '");
        message.append(creator_cert.subject_id.as_str());
        message.append("'");
        return Err(AletheiaError::InvalidHeader(message));
    }
    Ok(())
}

/// The criterion of success: an envelope verifies wherever its chain passes
/// the chain check, its leaf key is a public key, and that key accepts the
/// signature over the signed bytes. Flag bits that this library does not know
/// and the version fields stand in nobody's way.
pub proof fn lemma_sealed_envelope_verifies(f: FileView, roots: Seq<Seq<u8>>)
    requires
        chain_check(f.certificate_chain, roots) is Ok,
        is_public_key(f.certificate_chain[0].public_key),
        sealed(f),
    ensures
        verification(f, roots) == Ok::<ResultView, ErrorView>(report(f)),
{
}

/// Sign and verify: an envelope sealed by a creator whose chain is well
/// issued verifies under the chain's root key, and names the subject of the
/// creator's certificate.
pub proof fn lemma_sign_then_verify(f: FileView, roots: Seq<Seq<u8>>)
    requires
        well_issued(f.certificate_chain),
        is_public_key(f.certificate_chain[0].public_key),
        sealed(f),
        roots.contains(f.certificate_chain.last().public_key),
    ensures
        verification(f, roots) == Ok::<ResultView, ErrorView>(report(f)),
        report(f).valid,
        report(f).creator_id == f.certificate_chain[0].subject_id,
{
    lemma_well_issued_chain_passes(f.certificate_chain, roots);
}

/// Sign and verify, for a leaf issued by a root authority: what `new_root`
/// promises of the authority, what `issue_certificate` promises of the leaf
/// and what `sign` promises of the envelope are enough for `verify` to
/// succeed under the authority's public key.
pub proof fn lemma_issued_and_signed_verifies(
    ca: CertificateAuthority,
    leaf: CertificateView,
    f: FileView,
    roots: Seq<Seq<u8>>,
)
    requires
        ca.is_root(),
        leaf.issuer_id == ca.certificate_view().subject_id,
        leaf.signature.len() == 64,
        is_public_key(leaf.public_key),
        signed_by(leaf, ca.public_key_view()),
        f.certificate_chain == seq![leaf, ca.certificate_view()],
        sealed(f),
        roots.contains(ca.public_key_view()),
    ensures
        verification(f, roots) == Ok::<ResultView, ErrorView>(report(f)),
        report(f).creator_id == leaf.subject_id,
{
    let chain = f.certificate_chain;
    assert(chain[0] == leaf);
    assert(chain[1] == ca.certificate_view());
    assert(chain.last() == ca.certificate_view());
    assert(well_issued(chain));
    lemma_sign_then_verify(f, roots);
}

/// Trust gating: an envelope whose root key is not in the trust set never
/// verifies.
pub proof fn lemma_untrusted_envelope_fails(f: FileView, roots: Seq<Seq<u8>>)
    requires
        f.certificate_chain.len() > 0,
        !roots.contains(f.certificate_chain.last().public_key),
    ensures
        verification(f, roots) is Err,
{
    lemma_untrusted_root_fails(f.certificate_chain, roots);
}

/// Trust gating: where everything below the root passes and the root is a
/// self-issued authority whose key is not in the trust set, verification
/// reports `UntrustedRoot`.
pub proof fn lemma_untrusted_envelope_reported(f: FileView, roots: Seq<Seq<u8>>)
    requires
        f.certificate_chain.len() > 0,
        forall|i: int|
            0 <= i < f.certificate_chain.len() - 1 ==> link_check(f.certificate_chain, roots, i)
                is Ok,
        f.certificate_chain.last().issuer_id == f.certificate_chain.last().subject_id,
        f.certificate_chain.last().is_ca,
        !roots.contains(f.certificate_chain.last().public_key),
    ensures
        verification(f, roots) == Err::<ResultView, ErrorView>(ErrorView::UntrustedRoot),
{
    lemma_untrusted_root_reported(f.certificate_chain, roots);
}

/// The signed bytes tell their parts apart: two signature inputs are equal
/// only where the flags, the header bytes, the payload and the chain bytes are.
pub proof fn lemma_signature_input_injective(
    flags1: u16,
    header1: Seq<u8>,
    payload1: Seq<u8>,
    chain1: Seq<u8>,
    flags2: u16,
    header2: Seq<u8>,
    payload2: Seq<u8>,
    chain2: Seq<u8>,
)
    requires
        header1.len() <= u32::MAX,
        payload1.len() <= u64::MAX,
        chain1.len() <= u32::MAX,
        header2.len() <= u32::MAX,
        payload2.len() <= u64::MAX,
        chain2.len() <= u32::MAX,
        signature_input(flags1, header1, payload1, chain1) == signature_input(
            flags2,
            header2,
            payload2,
            chain2,
        ),
    ensures
        flags1 == flags2,
        header1 == header2,
        payload1 == payload2,
        chain1 == chain2,
{
    lemma_frame_round_trip(0, flags1, header1, payload1, chain1, Seq::empty());
    lemma_frame_round_trip(0, flags2, header2, payload2, chain2, Seq::empty());
}

/// Tamper evidence: the signed bytes tell envelopes apart. Where two
/// envelopes have the same signed bytes, they have the same flags, header,
/// stored payload and chain, provided the codec reads their headers and
/// chains back from what it wrote for them.
pub proof fn lemma_change_reaches_signed_bytes(f: FileView, g: FileView)
    requires
        f.payload.len() <= u64::MAX,
        g.payload.len() <= u64::MAX,
        codec_round_trips(header_model(f.header)),
        codec_round_trips(header_model(g.header)),
        codec_round_trips(chain_model(f.certificate_chain)),
        codec_round_trips(chain_model(g.certificate_chain)),
        signed_bytes(f.flags, f.header, f.payload, f.certificate_chain) is Ok,
        signed_bytes(f.flags, f.header, f.payload, f.certificate_chain) == signed_bytes(
            g.flags,
            g.header,
            g.payload,
            g.certificate_chain,
        ),
    ensures
        f.flags == g.flags,
        f.header == g.header,
        f.payload == g.payload,
        f.certificate_chain == g.certificate_chain,
{
    let header_f = header_encoding(f.header)->Ok_0;
    let header_g = header_encoding(g.header)->Ok_0;
    let chain_f = chain_encoding(f.certificate_chain)->Ok_0;
    let chain_g = chain_encoding(g.certificate_chain)->Ok_0;
    lemma_signature_input_injective(
        f.flags,
        header_f,
        f.payload,
        chain_f,
        g.flags,
        header_g,
        g.payload,
        chain_g,
    );
    lemma_encoding_injective(header_model(f.header), header_model(g.header));
    lemma_encoding_injective(
        chain_model(f.certificate_chain),
        chain_model(g.certificate_chain),
    );
    lemma_header_model_injective(f.header, g.header);
    lemma_chain_model_injective(f.certificate_chain, g.certificate_chain);
}

/// Tamper evidence: whatever is changed in a verified envelope's flags,
/// header, payload or signature, the changed envelope verifies only if the
/// leaf key accepts its signature over its own signed bytes; where it does
/// not, and the changed header can still be framed, verification reports
/// `InvalidSignature`.
pub proof fn lemma_tampering_detected(f: FileView, g: FileView, roots: Seq<Seq<u8>>)
    requires
        verification(f, roots) is Ok,
        g.certificate_chain == f.certificate_chain,
        signed_bytes(g.flags, g.header, g.payload, g.certificate_chain) is Ok,
        !sealed(g),
    ensures
        verification(g, roots) == Err::<ResultView, ErrorView>(ErrorView::InvalidSignature),
{
}

/// Tamper evidence: an envelope verifies only if it is sealed, whatever else
/// holds of it.
pub proof fn lemma_verified_is_sealed(f: FileView, roots: Seq<Seq<u8>>)
    requires
        verification(f, roots) is Ok,
    ensures
        sealed(f),
        chain_check(f.certificate_chain, roots) is Ok,
        verification(f, roots) == Ok::<ResultView, ErrorView>(report(f)),
{
}

} // verus!
