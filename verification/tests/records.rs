use aletheia::codec::{decode_value, encode_value, CborValue};
use aletheia::canonical::{certificate_to_cbor, encode_certificate, encode_chain, encode_header, header_to_cbor};
use aletheia::reading::{certificate_from_cbor, decode_certificate, decode_chain, decode_header, header_from_cbor};
use aletheia::{AletheiaError, Certificate, CustomValue, Header};

fn text_item(s: &str) -> Vec<u8> {
    assert!(s.len() < 24);
    let mut out = vec![0x60 + s.len() as u8];
    out.extend_from_slice(s.as_bytes());
    out
}

fn sample_certificate() -> Certificate {
    Certificate {
        version: 1,
        serial: vec![1, 2],
        subject_id: "s".to_string(),
        subject_name: "n".to_string(),
        public_key: vec![9],
        issuer_id: "i".to_string(),
        issued_at: 1704067200,
        is_ca: true,
        signature: vec![7],
    }
}

fn sample_certificate_bytes() -> Vec<u8> {
    let mut expected = vec![0xa9];
    expected.extend(text_item("version"));
    expected.push(0x01);
    expected.extend(text_item("serial"));
    expected.extend_from_slice(&[0x42, 1, 2]);
    expected.extend(text_item("subject_id"));
    expected.extend(text_item("s"));
    expected.extend(text_item("subject_name"));
    expected.extend(text_item("n"));
    expected.extend(text_item("public_key"));
    expected.extend_from_slice(&[0x41, 9]);
    expected.extend(text_item("issuer_id"));
    expected.extend(text_item("i"));
    expected.extend(text_item("issued_at"));
    expected.extend_from_slice(&[0x1a, 0x65, 0x92, 0x00, 0x80]);
    expected.extend(text_item("is_ca"));
    expected.push(0xf5);
    expected.extend(text_item("signature"));
    expected.extend_from_slice(&[0x41, 7]);
    expected
}

#[test]
fn minimal_header_has_two_entries_in_declaration_order() {
    let header = Header::new_with_timestamp("a", 5);
    let mut expected = vec![0xa2];
    expected.extend(text_item("signed_at"));
    expected.push(0x05);
    expected.extend(text_item("creator_id"));
    expected.extend(text_item("a"));
    assert_eq!(encode_header(&header).unwrap(), expected);
}

#[test]
fn full_header_keeps_declaration_order_and_omits_nothing_present() {
    let mut header = Header::new_with_timestamp("a", -1)
        .with_content_type("t")
        .with_original_name("o")
        .with_description("d");
    header.custom = Some(vec![
        ("a".to_string(), CustomValue::Null),
        ("b".to_string(), CustomValue::Bool(false)),
        ("c".to_string(), CustomValue::Integer(-2)),
        ("d".to_string(), CustomValue::Text("x".to_string())),
        ("e".to_string(), CustomValue::Bytes(vec![0xff])),
    ]);
    let mut expected = vec![0xa6];
    expected.extend(text_item("content_type"));
    expected.extend(text_item("t"));
    expected.extend(text_item("signed_at"));
    expected.push(0x20);
    expected.extend(text_item("creator_id"));
    expected.extend(text_item("a"));
    expected.extend(text_item("original_name"));
    expected.extend(text_item("o"));
    expected.extend(text_item("description"));
    expected.extend(text_item("d"));
    expected.extend(text_item("custom"));
    expected.push(0xa5);
    expected.extend(text_item("a"));
    expected.push(0xf6);
    expected.extend(text_item("b"));
    expected.push(0xf4);
    expected.extend(text_item("c"));
    expected.push(0x21);
    expected.extend(text_item("d"));
    expected.extend(text_item("x"));
    expected.extend(text_item("e"));
    expected.extend_from_slice(&[0x41, 0xff]);
    let bytes = encode_header(&header).unwrap();
    assert_eq!(bytes, expected);

    let back = decode_header(&bytes).unwrap();
    assert_eq!(back.content_type.as_deref(), Some("t"));
    assert_eq!(back.signed_at, -1);
    assert_eq!(back.creator_id, "a");
    assert_eq!(back.original_name.as_deref(), Some("o"));
    assert_eq!(back.description.as_deref(), Some("d"));
    let custom = back.custom.clone().unwrap();
    assert_eq!(custom.len(), 5);
    assert!(matches!(custom[0], (ref k, CustomValue::Null) if k == "a"));
    assert!(matches!(custom[1], (ref k, CustomValue::Bool(false)) if k == "b"));
    assert!(matches!(custom[2], (ref k, CustomValue::Integer(-2)) if k == "c"));
    assert!(matches!(custom[3], (ref k, CustomValue::Text(ref t)) if k == "d" && t == "x"));
    assert!(matches!(custom[4], (ref k, CustomValue::Bytes(ref b)) if k == "e" && b == &[0xff]));
    assert_eq!(encode_header(&back).unwrap(), bytes);
}

#[test]
fn custom_keys_must_ascend() {
    let mut header = Header::new_with_timestamp("a", 5);
    header.custom = Some(vec![
        ("b".to_string(), CustomValue::Null),
        ("a".to_string(), CustomValue::Null),
    ]);
    assert!(!header.is_well_formed());
    match encode_header(&header) {
        Err(AletheiaError::InvalidHeader(m)) => assert_eq!(m, "custom metadata keys do not ascend"),
        _ => panic!("expected InvalidHeader"),
    }
    header.custom = Some(vec![
        ("a".to_string(), CustomValue::Null),
        ("a".to_string(), CustomValue::Null),
    ]);
    assert!(!header.is_well_formed());
    header.custom = Some(vec![
        ("a".to_string(), CustomValue::Null),
        ("ab".to_string(), CustomValue::Null),
        ("b".to_string(), CustomValue::Null),
    ]);
    assert!(header.is_well_formed());
    assert!(encode_header(&header).is_ok());

    // The same on the way in.
    let mut bytes = vec![0xa3];
    bytes.extend(text_item("signed_at"));
    bytes.push(0x05);
    bytes.extend(text_item("creator_id"));
    bytes.extend(text_item("a"));
    bytes.extend(text_item("custom"));
    bytes.push(0xa2);
    bytes.extend(text_item("b"));
    bytes.push(0xf6);
    bytes.extend(text_item("a"));
    bytes.push(0xf6);
    match decode_header(&bytes) {
        Err(AletheiaError::CborDecode(m)) => assert_eq!(m, "malformed header record"),
        _ => panic!("expected CborDecode"),
    }
}

#[test]
fn certificate_encoding_is_bit_exact() {
    let cert = sample_certificate();
    assert_eq!(encode_certificate(&cert).unwrap(), sample_certificate_bytes());
    // The signable bytes are the same record without its last entry.
    let mut signable = sample_certificate_bytes();
    signable[0] = 0xa8;
    signable.truncate(signable.len() - (1 + "signature".len() + 2));
    assert_eq!(cert.signable_data(), signable);
    let mut other = cert.clone();
    other.signature = vec![1, 2, 3];
    assert_eq!(other.signable_data(), signable);
}

#[test]
fn chain_encoding_is_an_array_of_certificates() {
    let cert = sample_certificate();
    let mut expected = vec![0x82];
    expected.extend(sample_certificate_bytes());
    expected.extend(sample_certificate_bytes());
    let bytes = encode_chain(&[cert.clone(), cert]).unwrap();
    assert_eq!(bytes, expected);
    let back = decode_chain(&bytes).unwrap();
    assert_eq!(back.len(), 2);
    assert_eq!(back[1].issued_at, 1704067200);
    assert_eq!(encode_chain(&[]).unwrap(), vec![0x80]);
    assert!(decode_chain(&[0x80]).unwrap().is_empty());
    match decode_chain(&[0x81, 0x01]) {
        Err(AletheiaError::CborDecode(m)) => assert_eq!(m, "malformed certificate chain"),
        _ => panic!("expected CborDecode"),
    }
}

#[test]
fn certificate_decoding_gives_every_field_back() {
    let cert = decode_certificate(&sample_certificate_bytes()).unwrap();
    let wanted = sample_certificate();
    assert_eq!(cert.version, wanted.version);
    assert_eq!(cert.serial, wanted.serial);
    assert_eq!(cert.subject_id, wanted.subject_id);
    assert_eq!(cert.subject_name, wanted.subject_name);
    assert_eq!(cert.public_key, wanted.public_key);
    assert_eq!(cert.issuer_id, wanted.issuer_id);
    assert_eq!(cert.issued_at, wanted.issued_at);
    assert_eq!(cert.is_ca, wanted.is_ca);
    assert_eq!(cert.signature, wanted.signature);
}

fn header_record(entries: Vec<(&str, CborValue)>) -> CborValue {
    CborValue::Dict(entries.into_iter().map(|(k, v)| (CborValue::Text(k.to_string()), v)).collect())
}

#[test]
fn header_keys_may_come_in_any_order_and_unknown_keys_are_passed_over() {
    let record = header_record(vec![
        ("future", CborValue::Array(vec![CborValue::Integer(1)])),
        ("creator_id", CborValue::Text("a".to_string())),
        ("description", CborValue::Null),
        ("signed_at", CborValue::Integer(9)),
    ]);
    let header = header_from_cbor(&record).unwrap();
    assert_eq!(header.creator_id, "a");
    assert_eq!(header.signed_at, 9);
    assert_eq!(header.description, None);
    assert_eq!(header.content_type, None);
}

#[test]
fn header_faults_are_rejected() {
    let missing = header_record(vec![("creator_id", CborValue::Text("a".to_string()))]);
    assert!(header_from_cbor(&missing).is_none());
    let twice = header_record(vec![
        ("creator_id", CborValue::Text("a".to_string())),
        ("signed_at", CborValue::Integer(9)),
        ("signed_at", CborValue::Integer(9)),
    ]);
    assert!(header_from_cbor(&twice).is_none());
    let wrong_kind = header_record(vec![
        ("creator_id", CborValue::Integer(1)),
        ("signed_at", CborValue::Integer(9)),
    ]);
    assert!(header_from_cbor(&wrong_kind).is_none());
    let number_key = CborValue::Dict(vec![
        (CborValue::Integer(1), CborValue::Integer(1)),
        (CborValue::Text("creator_id".to_string()), CborValue::Text("a".to_string())),
        (CborValue::Text("signed_at".to_string()), CborValue::Integer(9)),
    ]);
    assert!(header_from_cbor(&number_key).is_none());
    assert!(header_from_cbor(&CborValue::Array(vec![])).is_none());
    let nested = header_record(vec![
        ("creator_id", CborValue::Text("a".to_string())),
        ("signed_at", CborValue::Integer(9)),
        ("custom", header_record(vec![("k", CborValue::Array(vec![]))])),
    ]);
    assert!(header_from_cbor(&nested).is_none());
}

#[test]
fn tags_are_looked_through() {
    let record = CborValue::Tag(
        55799,
        Box::new(header_record(vec![
            ("creator_id", CborValue::Tag(3, Box::new(CborValue::Text("a".to_string())))),
            ("signed_at", CborValue::Tag(1, Box::new(CborValue::Integer(9)))),
        ])),
    );
    let header = header_from_cbor(&record).unwrap();
    assert_eq!(header.creator_id, "a");
    assert_eq!(header.signed_at, 9);
}

#[test]
fn certificate_version_must_fit_a_byte() {
    let mut record = certificate_to_cbor(&sample_certificate());
    if let CborValue::Dict(entries) = &mut record {
        entries[0].1 = CborValue::Integer(256);
    }
    assert!(certificate_from_cbor(&record).is_none());
    if let CborValue::Dict(entries) = &mut record {
        entries[0].1 = CborValue::Integer(255);
    }
    assert_eq!(certificate_from_cbor(&record).unwrap().version, 255);
    if let CborValue::Dict(entries) = &mut record {
        entries[0].1 = CborValue::Integer(-1);
    }
    assert!(certificate_from_cbor(&record).is_none());
}

#[test]
fn items_encode_as_cbor_says() {
    assert_eq!(encode_value(&CborValue::Null).unwrap(), vec![0xf6]);
    assert_eq!(encode_value(&CborValue::Bool(true)).unwrap(), vec![0xf5]);
    assert_eq!(encode_value(&CborValue::Integer(23)).unwrap(), vec![0x17]);
    assert_eq!(encode_value(&CborValue::Integer(24)).unwrap(), vec![0x18, 24]);
    assert_eq!(encode_value(&CborValue::Integer(-25)).unwrap(), vec![0x38, 24]);
    assert_eq!(
        encode_value(&CborValue::Integer(i64::MIN)).unwrap(),
        vec![0x3b, 0x7f, 0xff, 0xff, 0xff, 0xff, 0xff, 0xff, 0xff]
    );
    assert_eq!(encode_value(&CborValue::Bytes(vec![1, 2])).unwrap(), vec![0x42, 1, 2]);
    assert_eq!(encode_value(&CborValue::Text("é".to_string())).unwrap(), vec![0x62, 0xc3, 0xa9]);
    assert_eq!(
        encode_value(&CborValue::Tag(1, Box::new(CborValue::Integer(0)))).unwrap(),
        vec![0xc1, 0x00]
    );
    assert_eq!(
        encode_value(&CborValue::Array(vec![CborValue::Null, CborValue::Array(vec![])])).unwrap(),
        vec![0x82, 0xf6, 0x80]
    );
    assert_eq!(
        encode_value(&CborValue::Dict(vec![(CborValue::Integer(1), CborValue::Bool(false))])).unwrap(),
        vec![0xa1, 0x01, 0xf4]
    );
}

#[test]
fn items_decode_as_cbor_says() {
    assert!(matches!(decode_value(&[0xf6]).unwrap(), CborValue::Null));
    assert!(matches!(decode_value(&[0x18, 24]).unwrap(), CborValue::Integer(24)));
    assert!(matches!(decode_value(&[0x38, 24]).unwrap(), CborValue::Integer(-25)));
    assert!(matches!(decode_value(&[0x42, 1, 2]).unwrap(), CborValue::Bytes(ref b) if b == &[1, 2]));
    assert!(matches!(decode_value(&[0x61, 0x61]).unwrap(), CborValue::Text(ref t) if t == "a"));
    match decode_value(&[0xc1, 0x82, 0x01, 0xa1, 0x02, 0xf5]).unwrap() {
        CborValue::Tag(1, inner) => match *inner {
            CborValue::Array(items) => {
                assert!(matches!(items[0], CborValue::Integer(1)));
                match &items[1] {
                    CborValue::Dict(entries) => {
                        assert!(matches!(entries[0], (CborValue::Integer(2), CborValue::Bool(true))))
                    }
                    _ => panic!("expected a map"),
                }
            }
            _ => panic!("expected an array"),
        },
        _ => panic!("expected a tag"),
    }
    // Truncated input and trailing bytes.
    assert!(matches!(decode_value(&[0x42, 1]), Err(AletheiaError::CborDecode(_))));
    assert!(matches!(decode_value(&[]), Err(AletheiaError::CborDecode(_))));
    assert!(matches!(decode_value(&[0x01, 0xff, 0xff]).unwrap(), CborValue::Integer(1)));
}

#[test]
fn floats_and_wide_integers_have_no_model() {
    for bytes in [
        vec![0xf9u8, 0x3c, 0x00],
        vec![0x1b, 0xff, 0xff, 0xff, 0xff, 0xff, 0xff, 0xff, 0xff],
        vec![0x81, 0xfa, 0x3f, 0x80, 0x00, 0x00],
    ] {
        match decode_value(&bytes) {
            Err(AletheiaError::CborDecode(m)) => assert_eq!(m, "unsupported CBOR item"),
            _ => panic!("expected CborDecode"),
        }
    }
}

#[test]
fn header_model_round_trips_through_the_codec() {
    let header = Header::new_with_timestamp("alice@example.com", 1704067200).with_description("d");
    let item = header_to_cbor(&header);
    let bytes = encode_value(&item).unwrap();
    let back = header_from_cbor(&decode_value(&bytes).unwrap()).unwrap();
    assert_eq!(back.creator_id, header.creator_id);
    assert_eq!(back.signed_at, header.signed_at);
    assert_eq!(back.description, header.description);
}
