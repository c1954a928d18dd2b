use aletheia::portal::{
    bundle_signature, bundle_version, decode_public_key, health_report, ApiError, Config,
};

#[test]
fn settings_and_their_defaults() {
    let c = Config::from_values(None, "postgres://db".to_string(), None);
    assert_eq!(c.bind_addr, "0.0.0.0:8080");
    assert_eq!(c.database_url, "postgres://db");
    assert_eq!(c.db_max_connections, 5);
    let c = Config::from_values(Some("127.0.0.1:9".to_string()), "u".to_string(), Some("12".to_string()));
    assert_eq!(c.bind_addr, "127.0.0.1:9");
    assert_eq!(c.db_max_connections, 12);
    let c = Config::from_values(None, "u".to_string(), Some("many".to_string()));
    assert_eq!(c.db_max_connections, 5);
    let c = Config::from_values(None, "u".to_string(), Some("-1".to_string()));
    assert_eq!(c.db_max_connections, 5);
}

#[test]
fn health_follows_the_database() {
    let ok = health_report(true);
    assert_eq!(ok.http_status, 200);
    assert_eq!(ok.status, "ok");
    assert_eq!(ok.db, "ok");
    let down = health_report(false);
    assert_eq!(down.http_status, 503);
    assert_eq!(down.status, "ok");
    assert_eq!(down.db, "error");
}

#[test]
fn errors_and_how_they_are_reported() {
    let db = ApiError::Db("pool timed out".to_string());
    assert_eq!(db.http_status(), 500);
    assert_eq!(db.label(), "db_error");
    assert_eq!(db.message(), "database error: pool timed out");
    assert_eq!(ApiError::NotFound.http_status(), 404);
    assert_eq!(ApiError::NotFound.label(), "not_found");
    assert_eq!(ApiError::NotFound.message(), "not found");
    let invalid = ApiError::Invalid("bad".to_string());
    assert_eq!(invalid.http_status(), 400);
    assert_eq!(invalid.label(), "invalid");
    assert_eq!(invalid.message(), "unprocessable request: bad");
    assert_eq!(ApiError::NotImplemented.http_status(), 501);
    assert_eq!(ApiError::NotImplemented.label(), "not_implemented");
    assert_eq!(ApiError::NotImplemented.message(), "not implemented");
}

#[test]
fn public_keys_of_requests() {
    assert_eq!(decode_public_key("Zm9vLWtleQ==").unwrap(), b"foo-key".to_vec());
    assert_eq!(decode_public_key("").unwrap(), Vec::<u8>::new());
    match decode_public_key("@@notb64") {
        Err(ApiError::Invalid(m)) => assert!(m.starts_with("invalid public key b64: ")),
        other => panic!("expected invalid error, got {:?}", other),
    }
}

#[test]
fn bundle_fingerprints() {
    assert_eq!(
        bundle_signature(b""),
        "e3b0c44298fc1c149afbf4c8996fb92427ae41e4649b934ca495991b7852b855"
    );
    assert_eq!(
        bundle_signature(b"abc"),
        "ba7816bf8f01cfea414140de5dae2223b00361a396177a9cb410ff61f20015ad"
    );
    assert_eq!(bundle_version(1704067200123), "1704067200123");
}

#[test]
fn health_internal_reports_ok_when_db_ok() {
    let report = health_report(true);
    assert_eq!(report.db, "ok");
    assert_eq!(report.status, "ok");
}

#[test]
fn health_internal_reports_error_when_db_fails() {
    let report = health_report(false);
    assert_eq!(report.http_status, 503);
    assert_eq!(report.db, "error");
}

#[test]
fn issue_certificate_invalid_b64_rejected() {
    let result = decode_public_key("@@notb64");
    match result {
        Err(ApiError::Invalid(_)) => {}
        other => panic!("expected invalid error, got {other:?}"),
    }
}

#[test]
fn lookups_and_row_fingerprints() {
    assert_eq!(aletheia::portal::found(Some(7)).unwrap(), 7);
    assert!(matches!(aletheia::portal::found::<u8>(None), Err(ApiError::NotFound)));
    assert_eq!(
        aletheia::portal::row_fingerprint("123e4567-e89b-12d3-a456-426614174000"),
        "fp-123e4567-e89b-12d3-a456-426614174000"
    );
}

#[test]
fn connection_counts_are_plain_decimal_numbers() {
    let count = |text: &str| Config::from_values(None, "u".to_string(), Some(text.to_string())).db_max_connections;
    assert_eq!(count("0"), 0);
    assert_eq!(count("+7"), 7);
    assert_eq!(count("007"), 7);
    assert_eq!(count("4294967295"), 4294967295);
    // Whatever is no number gives the default.
    for text in ["", "+", "-", "-0", "4294967296", " 5", "5 ", "1_000", "0x10", "١٢", "1.0", "++1"] {
        assert_eq!(count(text), 5, "{:?}", text);
    }
}
