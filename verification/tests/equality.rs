use aletheia::ca::{CertificateAuthority, SigningKeyPair};
use aletheia::equality::{same_certificate, same_chain, same_entries, same_file, same_header, same_text, same_value};
use aletheia::file::{from_bytes, to_bytes, to_bytes_checked};
use aletheia::signer::Signer;
use aletheia::{AletheiaFile, CustomValue, Header};

fn envelope() -> AletheiaFile {
    let ca = CertificateAuthority::new_root_with_timestamp("root@example.com", "Root CA", 1);
    let keys = SigningKeyPair::generate();
    let leaf = ca.issue_certificate_with_timestamp("alice@example.com", "Alice", &keys.public_key(), false, 1).unwrap();
    let signer = Signer::new(keys, vec![leaf, ca.certificate.clone()]).unwrap();
    let mut header = Header::new_with_timestamp("alice@example.com", 2).with_description("d");
    header.custom = Some(vec![("k".to_string(), CustomValue::Bytes(vec![1, 2]))]);
    signer.sign(b"payload", header).unwrap()
}

#[test]
fn values_and_texts() {
    assert!(same_text(&None, &None));
    assert!(same_text(&Some("a".to_string()), &Some("a".to_string())));
    assert!(!same_text(&Some("a".to_string()), &Some("b".to_string())));
    assert!(!same_text(&Some("".to_string()), &None));
    assert!(same_value(&CustomValue::Null, &CustomValue::Null));
    assert!(same_value(&CustomValue::Integer(-3), &CustomValue::Integer(-3)));
    assert!(!same_value(&CustomValue::Integer(-3), &CustomValue::Integer(3)));
    assert!(!same_value(&CustomValue::Bool(false), &CustomValue::Null));
    assert!(!same_value(&CustomValue::Text("01".to_string()), &CustomValue::Bytes(b"01".to_vec())));
    assert!(same_value(&CustomValue::Bytes(vec![0, 1]), &CustomValue::Bytes(vec![0, 1])));
    let e = |k: &str, v: i64| (k.to_string(), CustomValue::Integer(v));
    assert!(same_entries(&vec![], &vec![]));
    assert!(same_entries(&vec![e("a", 1), e("b", 2)], &vec![e("a", 1), e("b", 2)]));
    assert!(!same_entries(&vec![e("a", 1), e("b", 2)], &vec![e("b", 2), e("a", 1)]));
    assert!(!same_entries(&vec![e("a", 1)], &vec![e("a", 1), e("b", 2)]));
    assert!(!same_entries(&vec![e("a", 1)], &vec![e("a", 2)]));
}

#[test]
fn every_field_of_an_envelope_counts() {
    let file = envelope();
    assert!(same_file(&file, &file.clone()));
    assert!(same_header(&file.header, &file.header.clone()));
    assert!(same_chain(&file.certificate_chain, &file.certificate_chain.clone()));
    let change = |f: &dyn Fn(&mut AletheiaFile)| {
        let mut copy = file.clone();
        f(&mut copy);
        assert!(!same_file(&file, &copy));
    };
    change(&|f| f.version_major = 2);
    change(&|f| f.version_minor = 1);
    change(&|f| f.flags = f.flags.with_compression());
    change(&|f| f.header.signed_at += 1);
    change(&|f| f.header.creator_id.push('x'));
    change(&|f| f.header.content_type = Some(String::new()));
    change(&|f| f.header.original_name = Some(String::new()));
    change(&|f| f.header.description = None);
    change(&|f| f.header.custom = None);
    change(&|f| f.header.custom = Some(vec![("k".to_string(), CustomValue::Bytes(vec![1, 3]))]));
    change(&|f| f.payload.push(0));
    change(&|f| f.certificate_chain.swap(0, 1));
    change(&|f| {
        f.certificate_chain.pop();
    });
    change(&|f| f.signature[0] ^= 1);
    let cert = &file.certificate_chain[0];
    let differ = |f: &dyn Fn(&mut aletheia::Certificate)| {
        let mut copy = cert.clone();
        f(&mut copy);
        assert!(!same_certificate(cert, &copy));
    };
    differ(&|c| c.version = 2);
    differ(&|c| c.serial[0] ^= 1);
    differ(&|c| c.subject_id.push('x'));
    differ(&|c| c.subject_name.push('x'));
    differ(&|c| c.public_key[0] ^= 1);
    differ(&|c| c.issuer_id.push('x'));
    differ(&|c| c.issued_at += 1);
    differ(&|c| c.is_ca = !c.is_ca);
    differ(&|c| c.signature[0] ^= 1);
    assert!(same_certificate(cert, &cert.clone()));
}

#[test]
fn checked_writing_gives_bytes_that_read_back() {
    let file = envelope();
    let bytes = to_bytes_checked(&file).unwrap();
    assert_eq!(bytes, to_bytes(&file).unwrap());
    assert!(same_file(&from_bytes(&bytes).unwrap(), &file));
}

#[test]
fn checked_writing_refuses_what_would_not_read_back() {
    // A version that readers refuse, and a signature that is too short to be read.
    let mut file = envelope();
    file.version_major = 2;
    assert!(to_bytes(&file).is_ok());
    assert!(to_bytes_checked(&file).is_err());
    let mut file = envelope();
    file.signature.truncate(10);
    assert!(to_bytes_checked(&file).is_err());
    // A longer signature reads back cut to sixty-four bytes.
    let mut file = envelope();
    file.signature.push(0);
    assert!(to_bytes_checked(&file).is_err());
}
