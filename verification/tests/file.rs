use aletheia::ca::{CertificateAuthority, SigningKeyPair};
use aletheia::file::{from_bytes, from_bytes_canonical, starts_with_magic, to_bytes, write_frame};
use aletheia::codec::{encode_value, CborValue};
use aletheia::signer::Signer;
use aletheia::{AletheiaError, AletheiaFile, Flags, Header, MAGIC_BYTES};

fn create_test_file() -> AletheiaFile {
    let ca = CertificateAuthority::new_root("root@example.com", "Root CA");
    let user_keys = SigningKeyPair::generate();

    let user_cert = ca
        .issue_certificate("alice@example.com", "Alice", &user_keys.public_key(), false)
        .unwrap();

    let chain = vec![user_cert, ca.certificate.clone()];
    let signer = Signer::new(user_keys, chain).unwrap();

    let payload = b"Test content for file I/O";
    let header = Header::new("alice@example.com")
        .with_content_type("text/plain")
        .with_description("Test file");

    signer.sign(payload, header).unwrap()
}

#[test]
fn test_to_bytes_and_from_bytes() {
    let original = create_test_file();

    // Serialize
    let bytes = to_bytes(&original).unwrap();

    // Deserialize
    let loaded = from_bytes(&bytes).unwrap();

    assert_eq!(loaded.version_major, original.version_major);
    assert_eq!(loaded.version_minor, original.version_minor);
    assert_eq!(loaded.flags.is_compressed(), original.flags.is_compressed());
    assert_eq!(loaded.payload, original.payload);
    assert_eq!(loaded.signature, original.signature);
    assert_eq!(loaded.header.creator_id, original.header.creator_id);
    assert_eq!(loaded.certificate_chain.len(), original.certificate_chain.len());
}

#[test]
fn test_invalid_magic() {
    let data = b"NOTVALID12345678";
    let result = from_bytes(data);
    assert!(matches!(result, Err(AletheiaError::InvalidMagic)));
}

#[test]
fn round_trip_gives_every_field_back() {
    let original = create_test_file();
    let bytes = to_bytes(&original).unwrap();
    let loaded = from_bytes(&bytes).unwrap();
    assert_eq!(loaded.flags, original.flags);
    assert_eq!(loaded.header.content_type, original.header.content_type);
    assert_eq!(loaded.header.signed_at, original.header.signed_at);
    assert_eq!(loaded.header.original_name, None);
    assert_eq!(loaded.header.description, Some("Test file".to_string()));
    assert!(loaded.header.custom.is_none());
    for (a, b) in loaded.certificate_chain.iter().zip(original.certificate_chain.iter()) {
        assert_eq!(a.version, b.version);
        assert_eq!(a.serial, b.serial);
        assert_eq!(a.subject_id, b.subject_id);
        assert_eq!(a.subject_name, b.subject_name);
        assert_eq!(a.public_key, b.public_key);
        assert_eq!(a.issuer_id, b.issuer_id);
        assert_eq!(a.issued_at, b.issued_at);
        assert_eq!(a.is_ca, b.is_ca);
        assert_eq!(a.signature, b.signature);
    }
    // Writing is a function of the envelope: the same bytes come out again.
    assert_eq!(to_bytes(&original).unwrap(), bytes);
    assert_eq!(to_bytes(&loaded).unwrap(), bytes);
}

#[test]
fn layout_is_bit_exact() {
    let file = create_test_file();
    let bytes = to_bytes(&file).unwrap();
    assert_eq!(&bytes[..8], b"ALETHEIA");
    assert_eq!(&bytes[..8], &MAGIC_BYTES[..]);
    assert_eq!(bytes[8], 1);
    assert_eq!(bytes[9], 0);
    assert_eq!(&bytes[10..12], &[0, 0]);
    let header_len = u32::from_le_bytes([bytes[12], bytes[13], bytes[14], bytes[15]]) as usize;
    let at = 16 + header_len;
    let payload_len = u64::from_le_bytes(bytes[at..at + 8].try_into().unwrap()) as usize;
    assert_eq!(payload_len, 25);
    assert_eq!(&bytes[at + 8..at + 8 + payload_len], b"Test content for file I/O");
    let at = at + 8 + payload_len;
    let chain_len = u32::from_le_bytes(bytes[at..at + 4].try_into().unwrap()) as usize;
    assert_eq!(bytes.len(), at + 4 + chain_len + 64);
    assert_eq!(&bytes[bytes.len() - 64..], &file.signature[..]);
}

#[test]
fn frame_of_small_sections() {
    let flags = Flags::from_bytes([0x01, 0x80]);
    let frame = write_frame(1, 7, &flags, &[0xaa, 0xbb], &[0xcc], &[]);
    let mut expected = b"ALETHEIA".to_vec();
    expected.extend_from_slice(&[1, 7, 0x01, 0x80]);
    expected.extend_from_slice(&[2, 0, 0, 0, 0xaa, 0xbb]);
    expected.extend_from_slice(&[1, 0, 0, 0, 0, 0, 0, 0, 0xcc]);
    expected.extend_from_slice(&[0, 0, 0, 0]);
    assert_eq!(frame, expected);
}

#[test]
fn truncation_is_unexpected_eof() {
    let bytes = to_bytes(&create_test_file()).unwrap();
    for cut in [0usize, 3, 7, 8, 9, 11, 15, 16, 40, bytes.len() - 65, bytes.len() - 1] {
        let result = from_bytes(&bytes[..cut]);
        assert!(matches!(result, Err(AletheiaError::UnexpectedEof)), "cut at {}", cut);
    }
    assert!(from_bytes(&bytes).is_ok());
}

#[test]
fn trailing_bytes_are_not_looked_at() {
    let file = create_test_file();
    let mut bytes = to_bytes(&file).unwrap();
    bytes.extend_from_slice(b"trailing");
    let loaded = from_bytes(&bytes).unwrap();
    assert_eq!(loaded.signature, file.signature);
}

#[test]
fn major_version_is_gated_and_minor_is_kept() {
    let mut bytes = to_bytes(&create_test_file()).unwrap();
    bytes[9] = 9;
    assert_eq!(from_bytes(&bytes).unwrap().version_minor, 9);
    bytes[8] = 2;
    match from_bytes(&bytes) {
        Err(AletheiaError::UnsupportedVersion { major, minor }) => {
            assert_eq!(major, 2);
            assert_eq!(minor, 9);
        }
        _ => panic!("expected UnsupportedVersion"),
    }
}

#[test]
fn every_flag_bit_is_kept_on_read() {
    let mut bytes = to_bytes(&create_test_file()).unwrap();
    bytes[10] = 0xf0;
    bytes[11] = 0x80;
    let loaded = from_bytes(&bytes).unwrap();
    assert_eq!(loaded.flags.to_bytes(), [0xf0, 0x80]);
    assert!(!loaded.flags.is_compressed());
}

#[test]
fn garbage_in_the_header_is_a_decode_error() {
    let mut data = b"ALETHEIA".to_vec();
    data.extend_from_slice(&[1, 0, 0, 0]);
    data.extend_from_slice(&[1, 0, 0, 0, 0xff]);
    assert!(matches!(from_bytes(&data), Err(AletheiaError::CborDecode(_))));
    // A well-formed item that is no header record.
    let mut data = b"ALETHEIA".to_vec();
    data.extend_from_slice(&[1, 0, 0, 0]);
    data.extend_from_slice(&[1, 0, 0, 0, 0x01]);
    match from_bytes(&data) {
        Err(AletheiaError::CborDecode(m)) => assert_eq!(m, "malformed header record"),
        _ => panic!("expected CborDecode"),
    }
}

#[test]
fn magic_probe() {
    assert!(starts_with_magic(b"ALETHEIA"));
    assert!(starts_with_magic(b"ALETHEIA and more"));
    assert!(!starts_with_magic(b"ALETHEI"));
    assert!(!starts_with_magic(b"ALETHEIB"));
    assert!(!starts_with_magic(b""));
}

#[test]
fn canonical_reading_accepts_what_was_written() {
    let file = create_test_file();
    let mut bytes = to_bytes(&file).unwrap();
    let back = from_bytes_canonical(&bytes).unwrap();
    assert_eq!(back.signature, file.signature);
    bytes.extend_from_slice(b"trailing");
    assert!(from_bytes_canonical(&bytes).is_ok());
    assert!(matches!(from_bytes_canonical(b"NOTVALID12345678"), Err(AletheiaError::InvalidMagic)));
}

#[test]
fn canonical_reading_rejects_another_order_of_keys() {
    let file = create_test_file();
    let bytes = to_bytes(&file).unwrap();
    let header_len = u32::from_le_bytes([bytes[12], bytes[13], bytes[14], bytes[15]]) as usize;
    // The same header with its two required entries first.
    let text = |s: &str| CborValue::Text(s.to_string());
    let header = encode_value(&CborValue::Dict(vec![
        (text("creator_id"), text("alice@example.com")),
        (text("signed_at"), CborValue::Integer(file.header.signed_at)),
        (text("content_type"), text("text/plain")),
        (text("description"), text("Test file")),
    ]))
    .unwrap();
    assert_eq!(header.len(), header_len);
    let mut changed = bytes[..16].to_vec();
    changed.extend_from_slice(&header);
    changed.extend_from_slice(&bytes[16 + header_len..]);
    let lenient = from_bytes(&changed).unwrap();
    assert_eq!(lenient.header.description, file.header.description);
    assert_eq!(to_bytes(&lenient).unwrap(), bytes);
    match from_bytes_canonical(&changed) {
        Err(AletheiaError::CborDecode(m)) => assert_eq!(m, "encoding is not canonical"),
        _ => panic!("expected CborDecode"),
    }
}
