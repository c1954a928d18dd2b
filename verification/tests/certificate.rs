use aletheia::ca::{CertificateAuthority, SigningKeyPair};
use aletheia::bytes::bytes_equal;
use aletheia::certificate::{
    generate_serial, is_trusted, judge_certificate, verify_certificate_chain,
    verify_certificate_signature,
};
use aletheia::{AletheiaError, Certificate};

#[test]
fn test_generate_serial() {
    let s1 = generate_serial();
    let s2 = generate_serial();
    assert_eq!(s1.len(), 16);
    assert_ne!(s1, s2);
}

fn root() -> CertificateAuthority {
    CertificateAuthority::new_root_with_timestamp("root@example.com", "Root CA", 1704067200)
}

fn leaf_of(ca: &CertificateAuthority, id: &str, is_ca: bool) -> (SigningKeyPair, Certificate) {
    let keys = SigningKeyPair::generate();
    let cert = ca
        .issue_certificate_with_timestamp(id, "Holder", &keys.public_key(), is_ca, 1704067200)
        .unwrap();
    (keys, cert)
}

fn chain_error(chain: &[Certificate], roots: &[Vec<u8>]) -> AletheiaError {
    verify_certificate_chain(chain, roots).unwrap_err()
}

#[test]
fn empty_chain_is_rejected() {
    match chain_error(&[], &[vec![0u8; 32]]) {
        AletheiaError::CertificateChainInvalid(m) => assert_eq!(m, "Empty certificate chain"),
        e => panic!("unexpected {:?}", e),
    }
}

#[test]
fn root_alone_is_a_chain() {
    let ca = root();
    verify_certificate_chain(&[ca.certificate.clone()], &[ca.public_key()]).unwrap();
}

#[test]
fn issuer_that_is_no_authority_is_rejected() {
    let ca = root();
    let (_, leaf) = leaf_of(&ca, "alice@example.com", false);
    let mut fake_root = ca.certificate.clone();
    fake_root.is_ca = false;
    match chain_error(&[leaf, fake_root], &[ca.public_key()]) {
        AletheiaError::CertificateChainInvalid(m) => {
            assert_eq!(m, "Certificate 'root@example.com' is not a CA but issued 'alice@example.com'")
        }
        e => panic!("unexpected {:?}", e),
    }
}

#[test]
fn issuer_id_mismatch_is_rejected() {
    let ca = root();
    let (_, mut leaf) = leaf_of(&ca, "alice@example.com", false);
    leaf.issuer_id = "someone@example.com".to_string();
    match chain_error(&[leaf, ca.certificate.clone()], &[ca.public_key()]) {
        AletheiaError::CertificateChainInvalid(m) => assert_eq!(
            m,
            "Issuer ID mismatch: cert says 'someone@example.com', chain has 'root@example.com'"
        ),
        e => panic!("unexpected {:?}", e),
    }
}

#[test]
fn root_that_is_not_self_signed_is_rejected() {
    let ca = root();
    let mut cert = ca.certificate.clone();
    cert.issuer_id = "other@example.com".to_string();
    match chain_error(&[cert], &[ca.public_key()]) {
        AletheiaError::CertificateChainInvalid(m) => assert_eq!(m, "Root certificate is not self-signed"),
        e => panic!("unexpected {:?}", e),
    }
}

#[test]
fn root_that_is_no_authority_is_rejected() {
    let ca = root();
    let mut cert = ca.certificate.clone();
    cert.is_ca = false;
    match chain_error(&[cert], &[ca.public_key()]) {
        AletheiaError::CertificateChainInvalid(m) => assert_eq!(m, "Root certificate is not marked as CA"),
        e => panic!("unexpected {:?}", e),
    }
}

#[test]
fn untrusted_root_is_reported_before_its_signature() {
    let ca = root();
    let other = root();
    let mut cert = ca.certificate.clone();
    // Even a root whose own signature is broken is reported as untrusted first.
    cert.signature[0] ^= 1;
    assert!(matches!(chain_error(&[cert], &[other.public_key()]), AletheiaError::UntrustedRoot));
    assert!(matches!(chain_error(&[ca.certificate.clone()], &[]), AletheiaError::UntrustedRoot));
}

#[test]
fn fault_below_the_root_comes_first() {
    let ca = root();
    let other = root();
    let (_, mut leaf) = leaf_of(&ca, "alice@example.com", false);
    leaf.issuer_id = "someone@example.com".to_string();
    // The root is not trusted, but the leaf's fault is met first.
    assert!(matches!(
        chain_error(&[leaf, ca.certificate.clone()], &[other.public_key()]),
        AletheiaError::CertificateChainInvalid(_)
    ));
}

#[test]
fn changed_certificate_field_breaks_its_signature() {
    let ca = root();
    let (_, leaf) = leaf_of(&ca, "alice@example.com", false);
    let mut renamed = leaf.clone();
    renamed.subject_name = "Mallory".to_string();
    match chain_error(&[renamed, ca.certificate.clone()], &[ca.public_key()]) {
        AletheiaError::InvalidCertificate(m) => assert_eq!(m, "Signature verification failed"),
        e => panic!("unexpected {:?}", e),
    }
    let mut promoted = leaf.clone();
    promoted.is_ca = true;
    assert!(matches!(
        chain_error(&[promoted, ca.certificate.clone()], &[ca.public_key()]),
        AletheiaError::InvalidCertificate(_)
    ));
    let mut redated = leaf.clone();
    redated.issued_at += 1;
    assert!(verify_certificate_signature(&redated, &ca.public_key()).is_err());
    let mut reserialed = leaf.clone();
    reserialed.serial[3] ^= 0x40;
    assert!(verify_certificate_signature(&reserialed, &ca.public_key()).is_err());
    let mut reversioned = leaf;
    reversioned.version = 2;
    assert!(verify_certificate_signature(&reversioned, &ca.public_key()).is_err());
}

#[test]
fn malformed_key_and_signature_are_told_apart() {
    let ca = root();
    let (_, leaf) = leaf_of(&ca, "alice@example.com", false);
    match verify_certificate_signature(&leaf, &[1u8; 5]).unwrap_err() {
        AletheiaError::InvalidCertificate(m) => assert!(m.starts_with("Invalid issuer public key: ")),
        e => panic!("unexpected {:?}", e),
    }
    let mut short = leaf.clone();
    short.signature.truncate(63);
    match verify_certificate_signature(&short, &ca.public_key()).unwrap_err() {
        AletheiaError::InvalidCertificate(m) => {
            assert_eq!(m, "Invalid signature format: signature error")
        }
        e => panic!("unexpected {:?}", e),
    }
    let other = root();
    match verify_certificate_signature(&leaf, &other.public_key()).unwrap_err() {
        AletheiaError::InvalidCertificate(m) => assert_eq!(m, "Signature verification failed"),
        e => panic!("unexpected {:?}", e),
    }
}

#[test]
fn three_certificates_chain_through_an_intermediate() {
    let ca = root();
    let (mid_keys, mid_cert) = leaf_of(&ca, "mid@example.com", true);
    let mid =
        CertificateAuthority::from_key_and_cert(&mid_keys.private_key_bytes(), mid_cert.clone()).unwrap();
    let (_, leaf) = leaf_of(&mid, "alice@example.com", false);
    let chain = vec![leaf.clone(), mid_cert.clone(), ca.certificate.clone()];
    verify_certificate_chain(&chain, &[ca.public_key()]).unwrap();
    // Another order of the same certificates does not pass.
    let swapped = vec![mid_cert, leaf, ca.certificate.clone()];
    assert!(verify_certificate_chain(&swapped, &[ca.public_key()]).is_err());
}

#[test]
fn trust_set_membership_is_by_bytes() {
    let keys = vec![vec![1u8, 2, 3], vec![4u8, 5]];
    assert!(is_trusted(&keys, &[4, 5]));
    assert!(!is_trusted(&keys, &[4]));
    assert!(!is_trusted(&[], &[4, 5]));
    assert!(bytes_equal(&[], &[]));
    assert!(bytes_equal(&[1, 2], &[1, 2]));
    assert!(!bytes_equal(&[1, 2], &[1, 3]));
    assert!(!bytes_equal(&[1, 2], &[1, 2, 3]));
}

fn certificate_fault(r: Result<(), AletheiaError>) -> String {
    match r.unwrap_err() {
        AletheiaError::InvalidCertificate(m) => m,
        e => panic!("unexpected {:?}", e),
    }
}

#[test]
fn certificate_verdict_from_what_the_scheme_said() {
    assert!(judge_certificate(Ok(()), Ok(()), true).is_ok());
    assert_eq!(
        certificate_fault(judge_certificate(Ok(()), Ok(()), false)),
        "Signature verification failed"
    );
    assert_eq!(
        certificate_fault(judge_certificate(Err("no key".to_string()), Ok(()), true)),
        "Invalid issuer public key: no key"
    );
    assert_eq!(
        certificate_fault(judge_certificate(Ok(()), Err("no form".to_string()), true)),
        "Invalid signature format: no form"
    );
    // The key decides before the signature's form.
    assert_eq!(
        certificate_fault(judge_certificate(
            Err("no key".to_string()),
            Err("no form".to_string()),
            false
        )),
        "Invalid issuer public key: no key"
    );
    assert_eq!(
        certificate_fault(judge_certificate(Ok(()), Err(String::new()), false)),
        "Invalid signature format: "
    );
}

#[test]
fn signatures_of_every_other_length_give_one_text() {
    let ca = root();
    let (_, leaf) = leaf_of(&ca, "alice@example.com", false);
    for length in [0usize, 1, 32, 63, 65, 128] {
        let mut changed = leaf.clone();
        changed.signature = vec![7u8; length];
        assert_eq!(
            certificate_fault(verify_certificate_signature(&changed, &ca.public_key())),
            "Invalid signature format: signature error"
        );
    }
}
