use aletheia::ca::{CertificateAuthority, SigningKeyPair};
use aletheia::certificate::{verify_certificate_chain, verify_certificate_signature};
use aletheia::AletheiaError;

#[test]
fn test_create_root_ca() {
    let ca = CertificateAuthority::new_root("root@example.com", "Root CA");

    assert_eq!(ca.certificate.subject_id, "root@example.com");
    assert_eq!(ca.certificate.issuer_id, "root@example.com");
    assert!(ca.certificate.is_ca);

    // Verify self-signature
    verify_certificate_signature(&ca.certificate, &ca.public_key()).unwrap();
}

#[test]
fn test_issue_certificate() {
    let ca = CertificateAuthority::new_root("root@example.com", "Root CA");
    let user_keys = SigningKeyPair::generate();

    let cert = ca
        .issue_certificate("alice@example.com", "Alice", &user_keys.public_key(), false)
        .unwrap();

    assert_eq!(cert.subject_id, "alice@example.com");
    assert_eq!(cert.issuer_id, "root@example.com");
    assert!(!cert.is_ca);

    // Verify signature
    verify_certificate_signature(&cert, &ca.public_key()).unwrap();
}

#[test]
fn test_certificate_chain() {
    let root_ca = CertificateAuthority::new_root("root@example.com", "Root CA");
    let user_keys = SigningKeyPair::generate();

    let user_cert = root_ca
        .issue_certificate("alice@example.com", "Alice", &user_keys.public_key(), false)
        .unwrap();

    let chain = vec![user_cert, root_ca.certificate.clone()];
    let trusted_roots = vec![root_ca.public_key()];

    verify_certificate_chain(&chain, &trusted_roots).unwrap();
}

#[test]
fn root_certificate_has_the_documented_shape() {
    let ca = CertificateAuthority::new_root_with_timestamp("root@example.com", "Root CA", 1704067200);
    let cert = &ca.certificate;
    assert_eq!(cert.version, 1);
    assert_eq!(cert.serial.len(), 16);
    assert_eq!(cert.subject_name, "Root CA");
    assert_eq!(cert.issued_at, 1704067200);
    assert_eq!(cert.public_key, ca.public_key());
    assert_eq!(cert.public_key.len(), 32);
    assert_eq!(cert.signature.len(), 64);
    assert_eq!(ca.private_key_bytes().len(), 32);
}

#[test]
fn issue_rejects_a_key_of_the_wrong_length() {
    let ca = CertificateAuthority::new_root_with_timestamp("root@example.com", "Root CA", 1704067200);
    let short = vec![7u8; 31];
    let result = ca.issue_certificate_with_timestamp("bob@example.com", "Bob", &short, false, 1704067200);
    match result {
        Err(AletheiaError::InvalidCertificate(message)) => {
            assert!(message.starts_with("Invalid public key: "));
            assert!(message.len() > "Invalid public key: ".len());
        }
        other => panic!("expected InvalidCertificate, got {:?}", other.map(|c| c.subject_id)),
    }
    let long = vec![7u8; 33];
    assert!(matches!(
        ca.issue_certificate("bob@example.com", "Bob", &long, false),
        Err(AletheiaError::InvalidCertificate(_))
    ));
}

#[test]
fn issue_with_serial_fills_every_field() {
    let ca = CertificateAuthority::new_root_with_timestamp("root@example.com", "Root CA", 5);
    let keys = SigningKeyPair::generate();
    let serial = vec![9u8; 16];
    let cert = ca
        .issue_with_serial(serial.clone(), "carol@example.com", "Carol", &keys.public_key(), true, -12)
        .unwrap();
    assert_eq!(cert.version, 1);
    assert_eq!(cert.serial, serial);
    assert_eq!(cert.subject_id, "carol@example.com");
    assert_eq!(cert.subject_name, "Carol");
    assert_eq!(cert.public_key, keys.public_key());
    assert_eq!(cert.issuer_id, "root@example.com");
    assert_eq!(cert.issued_at, -12);
    assert!(cert.is_ca);
    assert_eq!(cert.signature.len(), 64);
    // The signature is the authority's over the signable bytes, and nothing else.
    let again = ca
        .issue_with_serial(serial, "carol@example.com", "Carol", &keys.public_key(), true, -12)
        .unwrap();
    assert_eq!(again.signature, cert.signature);
    verify_certificate_signature(&cert, &ca.public_key()).unwrap();
}

#[test]
fn root_from_material_is_a_function_of_its_material() {
    let secret = [3u8; 32];
    let a = CertificateAuthority::root_from_material(secret, vec![1u8; 16], "r", "R", 10);
    let b = CertificateAuthority::root_from_material(secret, vec![1u8; 16], "r", "R", 10);
    assert_eq!(a.certificate.signature, b.certificate.signature);
    assert_eq!(a.certificate.public_key, b.certificate.public_key);
    assert_eq!(a.private_key_bytes(), secret.to_vec());
    assert_ne!(a.public_key(), secret.to_vec());
    verify_certificate_signature(&a.certificate, &a.public_key()).unwrap();
}

#[test]
fn from_key_and_cert_checks_length_and_match() {
    let ca = CertificateAuthority::new_root_with_timestamp("root@example.com", "Root CA", 1);
    let key = ca.private_key_bytes();
    let loaded = CertificateAuthority::from_key_and_cert(&key, ca.certificate.clone()).unwrap();
    assert_eq!(loaded.public_key(), ca.public_key());
    assert_eq!(loaded.certificate.subject_id, "root@example.com");

    match CertificateAuthority::from_key_and_cert(&key[..31], ca.certificate.clone()) {
        Err(AletheiaError::InvalidCertificate(m)) => assert_eq!(m, "Invalid signing key length"),
        _ => panic!("expected InvalidCertificate"),
    }
    let other = SigningKeyPair::generate();
    match CertificateAuthority::from_key_and_cert(&other.private_key_bytes(), ca.certificate.clone()) {
        Err(AletheiaError::InvalidCertificate(m)) => {
            assert_eq!(m, "Signing key does not match certificate public key")
        }
        _ => panic!("expected InvalidCertificate"),
    }
}

#[test]
fn loaded_authority_issues_like_the_root() {
    let ca = CertificateAuthority::new_root_with_timestamp("root@example.com", "Root CA", 1);
    let loaded =
        CertificateAuthority::from_key_and_cert(&ca.private_key_bytes(), ca.certificate.clone()).unwrap();
    let keys = SigningKeyPair::generate();
    let cert = loaded
        .issue_certificate_with_timestamp("dave@example.com", "Dave", &keys.public_key(), false, 2)
        .unwrap();
    verify_certificate_signature(&cert, &ca.public_key()).unwrap();
    let chain = vec![cert, ca.certificate.clone()];
    verify_certificate_chain(&chain, &[ca.public_key()]).unwrap();
}

#[test]
fn key_pair_round_trips_through_its_bytes() {
    let keys = SigningKeyPair::generate();
    let bytes = keys.private_key_bytes();
    assert_eq!(bytes.len(), 32);
    let again = SigningKeyPair::from_bytes(&bytes).unwrap();
    assert_eq!(again.public_key(), keys.public_key());
    assert_eq!(again.sign(b"message"), keys.sign(b"message"));
    assert_eq!(keys.sign(b"message").len(), 64);
    assert_ne!(keys.sign(b"message"), keys.sign(b"massage"));
    match SigningKeyPair::from_bytes(&bytes[..16]) {
        Err(AletheiaError::InvalidCertificate(m)) => assert_eq!(m, "Invalid private key length"),
        _ => panic!("expected InvalidCertificate"),
    }
    let fixed = SigningKeyPair::from_secret([1u8; 32]);
    assert_eq!(fixed.private_key_bytes(), vec![1u8; 32]);
}

#[test]
fn a_key_of_the_wrong_length_loads_no_authority() {
    let ca = CertificateAuthority::new_root_with_timestamp("root@example.com", "Root CA", 1);
    for len in [0usize, 31, 33, 64] {
        let key = vec![7u8; len];
        match CertificateAuthority::from_key_and_cert(&key, ca.certificate.clone()) {
            Err(AletheiaError::InvalidCertificate(m)) => assert_eq!(m, "Invalid signing key length"),
            _ => panic!("expected InvalidCertificate for {} bytes", len),
        }
        assert!(matches!(SigningKeyPair::from_bytes(&key), Err(AletheiaError::InvalidCertificate(_))));
    }
}

#[test]
fn issuing_succeeds_for_every_public_key() {
    let ca = CertificateAuthority::new_root("root@example.com", "Root CA");
    for _ in 0..8 {
        let keys = SigningKeyPair::generate();
        assert!(ca.issue_certificate("s", "S", &keys.public_key(), false).is_ok());
        assert!(ca.issue_certificate_with_timestamp("s", "S", &keys.public_key(), true, i64::MIN).is_ok());
    }
    // Thirty-two bytes that are no point of the curve.
    let mut bad = [0xffu8; 32];
    bad[0] = 0xee;
    let outcome = ca.issue_certificate("s", "S", &bad, false);
    if let Err(e) = outcome {
        assert!(matches!(e, AletheiaError::InvalidCertificate(_)));
    }
}
