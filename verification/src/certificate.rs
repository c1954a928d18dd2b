//! Certificates: checking one signature, checking a chain against a trust
//! set, and making serial numbers.

use crate::bytes::bytes_equal;
use crate::canonical::signable_encoding;
use crate::crypto::{
    check_public_key, check_signature_format, ed25519_accepts, ed25519_key_error, random_bytes,
    signature_accepted,
};
use crate::error::{AletheiaError, ErrorView, Outcome, Result};
use crate::types::{chain_view, Certificate, CertificateView};
use vstd::prelude::*;
use vstd::string::StringExecFns;

verus! {

/// The view of an outcome without a value.
pub open spec fn unit_result_view(
    r: Result<()>,
) -> Outcome<()> {
    match r {
        Ok(_) => Ok(()),
        Err(e) => Err(e@),
    }
}

/// The views of a list of keys, in order.
pub open spec fn keys_view(keys: Seq<Vec<u8>>) -> Seq<Seq<u8>> {
    Seq::new(keys.len(), |i: int| keys[i]@)
}

/// Whether the issuer's key accepts the certificate's signature over the
/// certificate's signable bytes.
pub open spec fn signed_by(c: CertificateView, issuer_key: Seq<u8>) -> bool {
    signable_encoding(c) matches Ok(bytes) && ed25519_accepts(issuer_key, bytes, c.signature)
}

/// The view of what a check of the signature scheme said: nothing, or the
/// text of its error.
pub open spec fn check_view(r: core::result::Result<(), String>) -> core::result::Result<
    (),
    Seq<char>,
> {
    match r {
        Ok(_) => Ok(()),
        Err(text) => Err(text@),
    }
}

/// The outcome of a certificate check, given what the signature scheme
/// said of the issuer's key, of the signature's form, and of the signature
/// itself: the first of the three that failed decides.
pub open spec fn certificate_verdict(
    key_check: core::result::Result<(), Seq<char>>,
    format_check: core::result::Result<(), Seq<char>>,
    accepted: bool,
) -> Outcome<()> {
    match key_check {
        Err(text) => Err(ErrorView::InvalidCertificate("Invalid issuer public key: "@ + text)),
        Ok(_) => match format_check {
            Err(text) => Err(ErrorView::InvalidCertificate("Invalid signature format: "@ + text)),
            Ok(_) => if accepted {
                Ok(())
            } else {
                Err(ErrorView::InvalidCertificate("Signature verification failed"@))
            },
        },
    }
}

/// What parsing an issuer's key says: nothing, or the text of the error.
pub open spec fn key_parse(issuer_key: Seq<u8>) -> core::result::Result<(), Seq<char>> {
    match ed25519_key_error(issuer_key) {
        Some(text) => Err(text),
        None => Ok(()),
    }
}

/// What parsing a signature says: sixty-four bytes have the form of a
/// signature, and no other number has.
pub open spec fn signature_parse(signature: Seq<u8>) -> core::result::Result<(), Seq<char>> {
    if signature.len() == 64 {
        Ok(())
    } else {
        Err("signature error"@)
    }
}

/// The outcome of checking a certificate's signature under an issuer's key:
/// the key is parsed first, then the signature, which must have sixty-four
/// bytes, then the signature is verified over the signable bytes.
pub open spec fn certificate_check(c: CertificateView, issuer_key: Seq<u8>) -> Outcome<()> {
    certificate_verdict(
        key_parse(issuer_key),
        signature_parse(c.signature),
        signed_by(c, issuer_key),
    )
}

/// Decides a certificate check from what the signature scheme said of the
/// issuer's key, of the signature's form, and of the signature itself.
pub fn judge_certificate(
    key_check: core::result::Result<(), String>,
    format_check: core::result::Result<(), String>,
    accepted: bool,
) -> (r: Result<()>)
    ensures
        unit_result_view(r) == certificate_verdict(
            check_view(key_check),
            check_view(format_check),
            accepted,
        ),
        r is Ok <==> key_check is Ok && format_check is Ok && accepted,
        r matches Err(e) ==> e@ is InvalidCertificate,
{
    match key_check {
        Ok(_) => {},
        Err(text) => {
            let mut message = "Invalid issuer public key: ".to_owned();
            message.append(text.as_str());
            return Err(AletheiaError::InvalidCertificate(message));
        },
    }
    match format_check {
        Ok(_) => {},
        Err(text) => {
            let mut message = "Invalid signature format: ".to_owned();
            message.append(text.as_str());
            return Err(AletheiaError::InvalidCertificate(message));
        },
    }
    if accepted {
        Ok(())
    } else {
        Err(AletheiaError::InvalidCertificate("Signature verification failed".to_owned()))
    }
}

/// Verifies that a certificate was signed by the holder of `issuer_public_key`.
pub fn verify_certificate_signature(cert: &Certificate, issuer_public_key: &[u8]) -> (r:
    Result<()>)
    ensures
        unit_result_view(r) == certificate_check(cert@, issuer_public_key@),
        r is Ok <==> ed25519_key_error(issuer_public_key@) is None && cert@.signature.len() == 64
            && signed_by(cert@, issuer_public_key@),
        r matches Err(e) ==> e@ is InvalidCertificate,
{
    let key_check = check_public_key(issuer_public_key);
    let format_check = check_signature_format(cert.signature.as_slice());
    let signable = cert.signable_data();
    let accepted = signature_accepted(
        issuer_public_key,
        signable.as_slice(),
        cert.signature.as_slice(),
    );
    judge_certificate(key_check, format_check, accepted)
}

/// The text that reports an issuer that may not issue.
pub open spec fn not_ca_message(issuer: Seq<char>, subject: Seq<char>) -> Seq<char> {
    "Certificate '"@ + issuer + "' is not a CA but issued '"@ + subject + "'"@
}

/// The text that reports a certificate that names another issuer.
pub open spec fn mismatch_message(named: Seq<char>, found: Seq<char>) -> Seq<char> {
    "Issuer ID mismatch: cert says '"@ + named + "', chain has '"@ + found + "'"@
}

/// The outcome of checking the certificate at `i`: against the next
/// certificate where there is one, else as the root against the trust set.
pub open spec fn link_check(chain: Seq<CertificateView>, roots: Seq<Seq<u8>>, i: int) -> Outcome<()> {
    let cert = chain[i];
    if i + 1 < chain.len() {
        let issuer = chain[i + 1];
        if !issuer.is_ca {
            Err(
                ErrorView::CertificateChainInvalid(
                    not_ca_message(issuer.subject_id, cert.subject_id),
                ),
            )
        } else if cert.issuer_id != issuer.subject_id {
            Err(
                ErrorView::CertificateChainInvalid(
                    mismatch_message(cert.issuer_id, issuer.subject_id),
                ),
            )
        } else {
            certificate_check(cert, issuer.public_key)
        }
    } else {
        if cert.issuer_id != cert.subject_id {
            Err(ErrorView::CertificateChainInvalid("Root certificate is not self-signed"@))
        } else if !cert.is_ca {
            Err(ErrorView::CertificateChainInvalid("Root certificate is not marked as CA"@))
        } else if !roots.contains(cert.public_key) {
            Err(ErrorView::UntrustedRoot)
        } else {
            certificate_check(cert, cert.public_key)
        }
    }
}

/// The outcome of checking the certificates from `from` on, in order: the
/// first fault, if there is one.
pub open spec fn links_check(chain: Seq<CertificateView>, roots: Seq<Seq<u8>>, from: int) -> Outcome<()>
    decreases chain.len() - from,
{
    if from >= chain.len() {
        Ok(())
    } else {
        match link_check(chain, roots, from) {
            Err(e) => Err(e),
            Ok(_) => links_check(chain, roots, from + 1),
        }
    }
}

/// The outcome of checking a chain, leaf first and root last, against a trust set.
pub open spec fn chain_check(chain: Seq<CertificateView>, roots: Seq<Seq<u8>>) -> Outcome<()> {
    if chain.len() == 0 {
        Err(ErrorView::CertificateChainInvalid("Empty certificate chain"@))
    } else {
        links_check(chain, roots, 0)
    }
}

/// Whether the trust set holds the key.
pub fn is_trusted(trusted_root_keys: &[Vec<u8>], key: &[u8]) -> (r: bool)
    ensures
        r == keys_view(trusted_root_keys@).contains(key@),
{
    let mut i: usize = 0;
    while i < trusted_root_keys.len()
        invariant
            0 <= i <= trusted_root_keys.len(),
            forall|j: int| 0 <= j < i ==> keys_view(trusted_root_keys@)[j] != key@,
        decreases trusted_root_keys.len() - i,
    {
        if bytes_equal(trusted_root_keys[i].as_slice(), key) {
            assert(keys_view(trusted_root_keys@)[i as int] == key@);
            return true;
        }
        i = i + 1;
    }
    false
}

/// Checks the certificate at `i` of a chain.
fn verify_link(chain: &[Certificate], trusted_root_keys: &[Vec<u8>], i: usize) -> (r:
    Result<()>)
    requires
        i < chain@.len(),
    ensures
        unit_result_view(r) == link_check(
            chain_view(chain@),
            keys_view(trusted_root_keys@),
            i as int,
        ),
        r matches Err(e) ==> is_chain_fault(e@),
{
    let cert = &chain[i];
    assert(chain_view(chain@)[i as int] == cert@);
    if i + 1 < chain.len() {
        let issuer = &chain[i + 1];
        assert(chain_view(chain@)[i + 1] == issuer@);
        if !issuer.is_ca {
            let mut message = "Certificate '".to_owned();
            message.append(issuer.subject_id.as_str());
            message.append("' is not a CA but issued '");
            message.append(cert.subject_id.as_str());
            message.append("'");
            return Err(AletheiaError::CertificateChainInvalid(message));
        }
        if cert.issuer_id != issuer.subject_id {
            let mut message = "Issuer ID mismatch: cert says '".to_owned();
            message.append(cert.issuer_id.as_str());
            message.append("', chain has '");
            message.append(issuer.subject_id.as_str());
            message.append("'");
            return Err(AletheiaError::CertificateChainInvalid(message));
        }
        verify_certificate_signature(cert, issuer.public_key.as_slice())
    } else {
        if cert.issuer_id != cert.subject_id {
            return Err(
                AletheiaError::CertificateChainInvalid(
                    "Root certificate is not self-signed".to_owned(),
                ),
            );
        }
        if !cert.is_ca {
            return Err(
                AletheiaError::CertificateChainInvalid(
                    "Root certificate is not marked as CA".to_owned(),
                ),
            );
        }
        if !is_trusted(trusted_root_keys, cert.public_key.as_slice()) {
            return Err(AletheiaError::UntrustedRoot);
        }
        verify_certificate_signature(cert, cert.public_key.as_slice())
    }
}

/// Whether an error is one that checking a chain reports: a broken chain
/// rule, an untrusted root, or a key or signature of a certificate that does
/// not hold.
pub open spec fn is_chain_fault(e: ErrorView) -> bool {
    e is CertificateChainInvalid || e is UntrustedRoot || e is InvalidCertificate
}

/// Verifies a chain, leaf first and root last, against a set of trusted root keys.
///
/// Every certificate but the last must name the next one as its issuer, the
/// next one must be allowed to issue, and its key must accept the signature.
/// The last must be self-signed, allowed to issue, and its key must be in the
/// trust set. The first fault met on the way from leaf to root is reported.
pub fn verify_certificate_chain(chain: &[Certificate], trusted_root_keys: &[Vec<u8>]) -> (r:
    Result<()>)
    ensures
        unit_result_view(r) == chain_check(chain_view(chain@), keys_view(trusted_root_keys@)),
        r matches Err(e) ==> is_chain_fault(e@),
{
    if chain.len() == 0 {
        return Err(AletheiaError::CertificateChainInvalid("Empty certificate chain".to_owned()));
    }
    let mut i: usize = 0;
    while i < chain.len()
        invariant
            0 <= i <= chain.len(),
            links_check(chain_view(chain@), keys_view(trusted_root_keys@), 0) == links_check(
                chain_view(chain@),
                keys_view(trusted_root_keys@),
                i as int,
            ),
        decreases chain.len() - i,
    {
        match verify_link(chain, trusted_root_keys, i) {
            Ok(_) => {},
            Err(e) => {
                return Err(e);
            },
        }
        i = i + 1;
    }
    Ok(())
}

/// Makes a serial number: sixteen bytes from the thread's random generator.
pub fn generate_serial() -> (r: Vec<u8>)
    ensures
        r@.len() == 16,
{
    random_bytes(16)
}

/// Whether `issuer` vouches for `c`: it may issue, it is named as the issuer,
/// and its key is a public key that accepts the signature of `c`.
pub open spec fn vouched(c: CertificateView, issuer: CertificateView) -> bool {
    &&& issuer.is_ca
    &&& c.issuer_id == issuer.subject_id
    &&& ed25519_key_error(issuer.public_key) is None
    &&& c.signature.len() == 64
    &&& signed_by(c, issuer.public_key)
}

/// Whether `c` is a root certificate: it vouches for itself.
pub open spec fn self_signed_root(c: CertificateView) -> bool {
    vouched(c, c)
}

/// Whether every certificate of a chain is vouched for by the next, and the
/// last by itself.
pub open spec fn well_issued(chain: Seq<CertificateView>) -> bool {
    &&& chain.len() > 0
    &&& forall|i: int| 0 <= i < chain.len() - 1 ==> vouched(#[trigger] chain[i], chain[i + 1])
    &&& self_signed_root(chain.last())
}

/// Where every certificate from `from` on passes its check, so does the rest
/// of the chain.
pub proof fn lemma_links_pass(chain: Seq<CertificateView>, roots: Seq<Seq<u8>>, from: int)
    requires
        0 <= from <= chain.len(),
        forall|i: int| from <= i < chain.len() ==> link_check(chain, roots, i) is Ok,
    ensures
        links_check(chain, roots, from) == Ok::<(), ErrorView>(()),
    decreases chain.len() - from,
{
    if from < chain.len() {
        lemma_links_pass(chain, roots, from + 1);
    }
}

/// The first fault from `from` on is the fault of the whole check, where
/// everything before `at` passes.
pub proof fn lemma_links_fail(
    chain: Seq<CertificateView>,
    roots: Seq<Seq<u8>>,
    from: int,
    at: int,
)
    requires
        0 <= from <= at < chain.len(),
        forall|i: int| from <= i < at ==> link_check(chain, roots, i) is Ok,
        link_check(chain, roots, at) is Err,
    ensures
        links_check(chain, roots, from) == link_check(chain, roots, at),
    decreases at - from,
{
    if from < at {
        lemma_links_fail(chain, roots, from + 1, at);
    }
}

/// A chain that fails somewhere fails as a whole.
pub proof fn lemma_links_fail_somewhere(
    chain: Seq<CertificateView>,
    roots: Seq<Seq<u8>>,
    from: int,
    at: int,
)
    requires
        0 <= from <= at < chain.len(),
        link_check(chain, roots, at) is Err,
    ensures
        links_check(chain, roots, from) is Err,
    decreases at - from,
{
    if from < at {
        lemma_links_fail_somewhere(chain, roots, from + 1, at);
    }
}

/// A well-issued chain whose root key is trusted passes the chain check.
pub proof fn lemma_well_issued_chain_passes(chain: Seq<CertificateView>, roots: Seq<Seq<u8>>)
    requires
        well_issued(chain),
        roots.contains(chain.last().public_key),
    ensures
        chain_check(chain, roots) == Ok::<(), ErrorView>(()),
{
    assert forall|i: int| 0 <= i < chain.len() implies link_check(chain, roots, i) is Ok by {
        if i + 1 < chain.len() {
            assert(vouched(chain[i], chain[i + 1]));
        }
    }
    lemma_links_pass(chain, roots, 0);
}

/// Trust gating: a chain whose root key is not in the trust set never passes.
pub proof fn lemma_untrusted_root_fails(chain: Seq<CertificateView>, roots: Seq<Seq<u8>>)
    requires
        chain.len() > 0,
        !roots.contains(chain.last().public_key),
    ensures
        chain_check(chain, roots) is Err,
{
    lemma_links_fail_somewhere(chain, roots, 0, chain.len() - 1);
}

/// Trust gating: where everything below the root passes and the root is a
/// self-issued authority whose key is not in the trust set, the check reports
/// `UntrustedRoot`, whatever the root's own signature is.
pub proof fn lemma_untrusted_root_reported(chain: Seq<CertificateView>, roots: Seq<Seq<u8>>)
    requires
        chain.len() > 0,
        forall|i: int| 0 <= i < chain.len() - 1 ==> link_check(chain, roots, i) is Ok,
        chain.last().issuer_id == chain.last().subject_id,
        chain.last().is_ca,
        !roots.contains(chain.last().public_key),
    ensures
        chain_check(chain, roots) == Err::<(), ErrorView>(ErrorView::UntrustedRoot),
{
    lemma_links_fail(chain, roots, 0, chain.len() - 1);
}

} // verus!
