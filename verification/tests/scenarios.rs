use aletheia::ca::{CertificateAuthority, SigningKeyPair};
use aletheia::file::from_bytes;
use aletheia::signer::Signer;
use aletheia::verification::verify;
use aletheia::{AletheiaError, AletheiaFile, Header};

const T: i64 = 1704067200;

fn happy_envelope() -> (AletheiaFile, CertificateAuthority) {
    let root = CertificateAuthority::new_root_with_timestamp("root@example.com", "Root CA", T);
    let keys = SigningKeyPair::generate();
    let leaf = root
        .issue_certificate_with_timestamp("alice@example.com", "Alice", &keys.public_key(), false, T)
        .unwrap();
    let signer = Signer::new(keys, vec![leaf, root.certificate.clone()]).unwrap();
    let header = Header::new_with_timestamp("alice@example.com", T)
        .with_content_type("text/plain")
        .with_description("Test data");
    let file = signer.sign(b"Hello, World!", header).unwrap();
    (file, root)
}

#[test]
fn happy_path() {
    let (file, root) = happy_envelope();
    assert_eq!(file.payload.len(), 13);
    assert_eq!(file.signature.len(), 64);
    let verdict = verify(&file, &[root.public_key()]).unwrap();
    assert!(verdict.valid);
    assert_eq!(verdict.creator_id, "alice@example.com");
    assert_eq!(verdict.creator_name, "Alice");
    assert_eq!(verdict.description, Some("Test data".to_string()));
    assert_eq!(verdict.signed_at, T);
}

#[test]
fn untrusted_root() {
    let (file, _) = happy_envelope();
    let other = CertificateAuthority::new_root_with_timestamp("root@example.com", "Root CA", T);
    assert!(matches!(verify(&file, &[other.public_key()]), Err(AletheiaError::UntrustedRoot)));
}

#[test]
fn tampered_payload() {
    let (mut file, root) = happy_envelope();
    file.payload[4] ^= 0x20;
    assert!(matches!(verify(&file, &[root.public_key()]), Err(AletheiaError::InvalidSignature)));
}

#[test]
fn tampered_header() {
    let (mut file, root) = happy_envelope();
    file.header.description = Some("Tampered".to_string());
    assert!(matches!(verify(&file, &[root.public_key()]), Err(AletheiaError::InvalidSignature)));
}

#[test]
fn bad_magic() {
    assert!(matches!(from_bytes(b"NOTVALID12345678"), Err(AletheiaError::InvalidMagic)));
}

#[test]
fn subject_key_of_the_wrong_length() {
    let root = CertificateAuthority::new_root_with_timestamp("root@example.com", "Root CA", T);
    for len in [0usize, 16, 31, 33, 64] {
        let key = vec![1u8; len];
        assert!(matches!(
            root.issue_certificate("bob@example.com", "Bob", &key, false),
            Err(AletheiaError::InvalidCertificate(_))
        ));
    }
}

#[test]
fn compression_round_trip() {
    let root = CertificateAuthority::new_root_with_timestamp("root@example.com", "Root CA", T);
    let keys = SigningKeyPair::generate();
    let leaf = root
        .issue_certificate_with_timestamp("alice@example.com", "Alice", &keys.public_key(), false, T)
        .unwrap();
    let signer = Signer::new(keys, vec![leaf, root.certificate.clone()]).unwrap().with_compression();
    let original = "Hello, World! ".repeat(1000);
    assert_eq!(original.len(), 14000);
    let file = signer.sign(original.as_bytes(), Header::new_with_timestamp("alice@example.com", T)).unwrap();
    assert!(file.flags.is_compressed());
    assert!(file.payload.len() < original.len());
    // The stored form opens with the original's length.
    assert_eq!(&file.payload[..4], &14000u32.to_le_bytes());
    assert_eq!(file.get_payload().unwrap(), original.as_bytes());
    assert!(verify(&file, &[root.public_key()]).unwrap().valid);
}
