use aletheia::ca::{CertificateAuthority, SigningKeyPair};
use aletheia::signer::Signer;
use aletheia::verification::{judge_envelope, validate_structure, verify};
use aletheia::{AletheiaError, AletheiaFile, Header};

fn create_test_file() -> (AletheiaFile, Vec<Vec<u8>>) {
    let timestamp = 1704067200;
    let ca = CertificateAuthority::new_root_with_timestamp("root@example.com", "Root CA", timestamp);
    let user_keys = SigningKeyPair::generate();

    let user_cert = ca
        .issue_certificate_with_timestamp(
            "alice@example.com",
            "Alice",
            &user_keys.public_key(),
            false,
            timestamp,
        )
        .unwrap();

    let chain = vec![user_cert, ca.certificate.clone()];
    let signer = Signer::new(user_keys, chain).unwrap();

    let payload = b"Test content";
    let header =
        Header::new_with_timestamp("alice@example.com", timestamp).with_description("Test file");

    let file = signer.sign(payload, header).unwrap();
    let trusted_roots = vec![ca.public_key()];

    (file, trusted_roots)
}

#[test]
fn test_verify_valid_file() {
    let (file, trusted_roots) = create_test_file();

    let result = verify(&file, &trusted_roots).unwrap();

    assert!(result.valid);
    assert_eq!(result.creator_id, "alice@example.com");
    assert_eq!(result.creator_name, "Alice");
    assert_eq!(result.description, Some("Test file".to_string()));
}

#[test]
fn test_verify_untrusted_root() {
    let (file, _) = create_test_file();

    // Use a different trusted root
    let other_ca =
        CertificateAuthority::new_root_with_timestamp("other@example.com", "Other CA", 1704067200);
    let wrong_roots = vec![other_ca.public_key()];

    let result = verify(&file, &wrong_roots);
    assert!(matches!(result, Err(AletheiaError::UntrustedRoot)));
}

#[test]
fn test_verify_tampered_payload() {
    let (mut file, trusted_roots) = create_test_file();

    // Tamper with the payload
    file.payload = b"Tampered content".to_vec();

    let result = verify(&file, &trusted_roots);
    assert!(matches!(result, Err(AletheiaError::InvalidSignature)));
}

#[test]
fn test_verify_tampered_header() {
    let (mut file, trusted_roots) = create_test_file();

    // Tamper with the header
    file.header.description = Some("Tampered description".to_string());

    let result = verify(&file, &trusted_roots);
    assert!(matches!(result, Err(AletheiaError::InvalidSignature)));
}

#[test]
fn test_validate_structure() {
    let (file, _) = create_test_file();
    validate_structure(&file).unwrap();
}

#[test]
fn verdict_carries_the_signing_time() {
    let (file, roots) = create_test_file();
    let result = verify(&file, &roots).unwrap();
    assert_eq!(result.signed_at, 1704067200);
}

#[test]
fn one_flipped_payload_bit_is_detected() {
    let (mut file, roots) = create_test_file();
    file.payload[0] ^= 0x01;
    assert!(matches!(verify(&file, &roots), Err(AletheiaError::InvalidSignature)));
}

#[test]
fn every_header_field_is_covered() {
    let (file, roots) = create_test_file();
    let mut a = file.clone();
    a.header.signed_at += 1;
    assert!(matches!(verify(&a, &roots), Err(AletheiaError::InvalidSignature)));
    let mut b = file.clone();
    b.header.creator_id = "mallory@example.com".to_string();
    assert!(matches!(verify(&b, &roots), Err(AletheiaError::InvalidSignature)));
    let mut c = file.clone();
    c.header.content_type = Some("text/plain".to_string());
    assert!(matches!(verify(&c, &roots), Err(AletheiaError::InvalidSignature)));
    let mut d = file.clone();
    d.header.original_name = Some("x".to_string());
    assert!(matches!(verify(&d, &roots), Err(AletheiaError::InvalidSignature)));
    let mut e = file.clone();
    e.header.description = None;
    assert!(matches!(verify(&e, &roots), Err(AletheiaError::InvalidSignature)));
    let mut f = file;
    f.header.custom = Some(vec![]);
    assert!(matches!(verify(&f, &roots), Err(AletheiaError::InvalidSignature)));
}

#[test]
fn flags_and_signature_are_covered() {
    let (file, roots) = create_test_file();
    let mut a = file.clone();
    a.flags = a.flags.with_compression();
    assert!(matches!(verify(&a, &roots), Err(AletheiaError::InvalidSignature)));
    let mut b = file.clone();
    b.signature[10] ^= 0x08;
    assert!(matches!(verify(&b, &roots), Err(AletheiaError::InvalidSignature)));
    let mut c = file;
    c.signature.pop();
    assert!(matches!(verify(&c, &roots), Err(AletheiaError::InvalidSignature)));
}

#[test]
fn chain_changes_are_detected() {
    let (file, roots) = create_test_file();
    let mut swapped = file.clone();
    swapped.certificate_chain.swap(0, 1);
    assert!(verify(&swapped, &roots).is_err());
    let mut renamed = file.clone();
    renamed.certificate_chain[0].subject_name = "Mallory".to_string();
    assert!(matches!(verify(&renamed, &roots), Err(AletheiaError::InvalidCertificate(_))));
    let mut empty = file;
    empty.certificate_chain.clear();
    assert!(matches!(verify(&empty, &roots), Err(AletheiaError::CertificateChainInvalid(_))));
}

#[test]
fn version_fields_do_not_gate_verification() {
    let (mut file, roots) = create_test_file();
    file.version_minor = 3;
    assert!(verify(&file, &roots).is_ok());
}

#[test]
fn structure_faults_in_their_order() {
    let (file, _) = create_test_file();
    let mut a = file.clone();
    a.version_major = 2;
    a.certificate_chain.clear();
    match validate_structure(&a) {
        Err(AletheiaError::UnsupportedVersion { major, minor }) => {
            assert_eq!((major, minor), (2, 0))
        }
        _ => panic!("expected UnsupportedVersion"),
    }
    let mut b = file.clone();
    b.certificate_chain.clear();
    b.signature.clear();
    match validate_structure(&b) {
        Err(AletheiaError::CertificateChainInvalid(m)) => assert_eq!(m, "Empty certificate chain"),
        _ => panic!("expected CertificateChainInvalid"),
    }
    let mut c = file.clone();
    c.signature.push(0);
    c.header.creator_id = "bob@example.com".to_string();
    assert!(matches!(validate_structure(&c), Err(AletheiaError::InvalidSignature)));
    let mut d = file;
    d.header.creator_id = "bob@example.com".to_string();
    match validate_structure(&d) {
        Err(AletheiaError::InvalidHeader(m)) => assert_eq!(
            m,
            "Creator ID mismatch: header says 'bob@example.com', certificate says 'alice@example.com'"
        ),
        _ => panic!("expected InvalidHeader"),
    }
}

#[test]
fn a_signature_of_another_length_is_an_invalid_signature() {
    let (file, roots) = create_test_file();
    for len in [0usize, 1, 63, 65, 128] {
        let mut changed = file.clone();
        changed.signature.resize(len, 0);
        assert!(matches!(verify(&changed, &roots), Err(AletheiaError::InvalidSignature)), "{} bytes", len);
    }
}

#[test]
fn envelope_verdict_from_what_the_scheme_said() {
    let (file, _) = create_test_file();
    let leaf = &file.certificate_chain[0];
    let verdict = judge_envelope(leaf, &file.header, Ok(()), true).unwrap();
    assert!(verdict.valid);
    assert_eq!(verdict.creator_id, "alice@example.com");
    assert_eq!(verdict.creator_name, "Alice");
    assert_eq!(verdict.signed_at, 1704067200);
    assert_eq!(verdict.description.as_deref(), Some("Test file"));
    assert!(matches!(
        judge_envelope(leaf, &file.header, Ok(()), false),
        Err(AletheiaError::InvalidSignature)
    ));
    match judge_envelope(leaf, &file.header, Err("no key".to_string()), true) {
        Err(AletheiaError::InvalidCertificate(m)) => assert_eq!(m, "Invalid public key: no key"),
        other => panic!("unexpected {:?}", other),
    }
    match judge_envelope(leaf, &file.header, Err("no key".to_string()), false) {
        Err(AletheiaError::InvalidCertificate(m)) => assert_eq!(m, "Invalid public key: no key"),
        other => panic!("unexpected {:?}", other),
    }
}

#[test]
fn the_verdict_names_the_certificate_it_is_given() {
    let (file, _) = create_test_file();
    let root = &file.certificate_chain[1];
    let verdict = judge_envelope(root, &file.header, Ok(()), true).unwrap();
    assert_eq!(verdict.creator_id, "root@example.com");
    assert_eq!(verdict.creator_name, "Root CA");
}
