//! The decisions of the administrative service that need no database and no
//! network: its settings, its health report, how its errors are reported, and
//! the fingerprint of a trust bundle.

use crate::exchange::{base64_bytes, base64_decode};
use crate::text::{signed_decimal, signed_decimal_text};
use sha2::Digest;
use vstd::prelude::*;
use vstd::string::StringExecFns;

verus! {

/// Whether a character is one of the ten digits.
pub open spec fn is_digit(c: char) -> bool {
    0x30 <= c as u32 <= 0x39
}

/// The number that decimal digits write.
pub open spec fn digits_value(digits: Seq<char>) -> nat
    decreases digits.len(),
{
    if digits.len() == 0 {
        0
    } else {
        10 * digits_value(digits.drop_last()) + (digits.last() as u32 - 0x30) as nat
    }
}

/// The number that a text writes as a `u32`: the text must be one or more
/// digits, with or without a plus sign before them, and the number must fit.
pub open spec fn parsed_u32(text: Seq<char>) -> Option<u32> {
    let digits = if text.len() > 0 && text[0] == '+' {
        text.subrange(1, text.len() as int)
    } else {
        text
    };
    if digits.len() > 0 && (forall|i: int| 0 <= i < digits.len() ==> is_digit(#[trigger] digits[i]))
        && digits_value(digits) <= u32::MAX {
        Some(digits_value(digits) as u32)
    } else {
        None
    }
}

/// The SHA-256 digest of the given bytes in lowercase hex, as `sha2` computes
/// it and `{:x}` writes it.
pub uninterp spec fn sha256_hex_text(bytes: Seq<u8>) -> Seq<char>;

/// `str::parse::<u32>`: the number that the text writes in decimal digits,
/// with or without a plus sign before them; nothing for an empty text, for a
/// text with any other character, and for a number that does not fit.
#[verifier::external_body]
fn parse_u32(text: &str) -> (r: Option<u32>)
    ensures
        r == parsed_u32(text@),
{
    text.parse::<u32>().ok()
}

/// `Sha256::digest` written with `{:x}`: sixty-four lowercase hex digits.
#[verifier::external_body]
fn sha256_hex(bytes: &[u8]) -> (r: String)
    ensures
        r@ == sha256_hex_text(bytes@),
        r@.len() == 64,
{
    format!("{:x}", sha2::Sha256::digest(bytes))
}

/// The settings of the service.
pub struct Config {
    pub bind_addr: String,
    pub database_url: String,
    pub db_max_connections: u32,
}

impl Config {
    /// The settings that the environment's values give: the address defaults
    /// to `0.0.0.0:8080`, and the number of connections to 5 where it is not
    /// set or is no number.
    pub fn from_values(
        bind_addr: Option<String>,
        database_url: String,
        db_max_connections: Option<String>,
    ) -> (r: Config)
        ensures
            r.bind_addr@ == (match bind_addr {
                Some(a) => a@,
                None => "0.0.0.0:8080"@,
            }),
            r.database_url == database_url,
            r.db_max_connections == (match db_max_connections {
                Some(text) => match parsed_u32(text@) {
                    Some(n) => n,
                    None => 5u32,
                },
                None => 5u32,
            }),
    {
        let bind_addr = match bind_addr {
            Some(a) => a,
            None => "0.0.0.0:8080".to_owned(),
        };
        let db_max_connections = match db_max_connections {
            Some(text) => match parse_u32(text.as_str()) {
                Some(n) => n,
                None => 5,
            },
            None => 5,
        };
        Config { bind_addr, database_url, db_max_connections }
    }
}

/// What the health endpoint answers.
pub struct HealthReport {
    /// The HTTP status: 200, or 503 where the database does not answer.
    pub http_status: u16,
    pub status: String,
    pub db: String,
}

/// The health report for a database that answers or does not.
pub fn health_report(db_ok: bool) -> (r: HealthReport)
    ensures
        r.http_status == (if db_ok {
            200u16
        } else {
            503u16
        }),
        r.status@ == "ok"@,
        r.db@ == (if db_ok {
            "ok"@
        } else {
            "error"@
        }),
{
    if db_ok {
        HealthReport { http_status: 200, status: "ok".to_owned(), db: "ok".to_owned() }
    } else {
        HealthReport { http_status: 503, status: "ok".to_owned(), db: "error".to_owned() }
    }
}

/// What can go wrong in a request to the service.
#[derive(Debug)]
pub enum ApiError {
    /// The database failed; the text is its error.
    Db(String),
    NotFound,
    /// The request cannot be processed; the text says why.
    Invalid(String),
    NotImplemented,
}

impl ApiError {
    /// The HTTP status that reports the error.
    pub fn http_status(&self) -> (r: u16)
        ensures
            r == (match self {
                ApiError::Db(_) => 500u16,
                ApiError::NotFound => 404u16,
                ApiError::Invalid(_) => 400u16,
                ApiError::NotImplemented => 501u16,
            }),
    {
        match self {
            ApiError::Db(_) => 500,
            ApiError::NotFound => 404,
            ApiError::Invalid(_) => 400,
            ApiError::NotImplemented => 501,
        }
    }

    /// The short name of the error in a response body.
    pub fn label(&self) -> (r: &'static str)
        ensures
            r@ == (match self {
                ApiError::Db(_) => "db_error"@,
                ApiError::NotFound => "not_found"@,
                ApiError::Invalid(_) => "invalid"@,
                ApiError::NotImplemented => "not_implemented"@,
            }),
    {
        match self {
            ApiError::Db(_) => "db_error",
            ApiError::NotFound => "not_found",
            ApiError::Invalid(_) => "invalid",
            ApiError::NotImplemented => "not_implemented",
        }
    }

    /// The sentence that reports the error.
    pub fn message(&self) -> (r: String)
        ensures
            r@ == (match self {
                ApiError::Db(text) => "database error: "@ + text@,
                ApiError::NotFound => "not found"@,
                ApiError::Invalid(text) => "unprocessable request: "@ + text@,
                ApiError::NotImplemented => "not implemented"@,
            }),
    {
        match self {
            ApiError::Db(text) => {
                let mut m = "database error: ".to_owned();
                m.append(text.as_str());
                m
            },
            ApiError::NotFound => "not found".to_owned(),
            ApiError::Invalid(text) => {
                let mut m = "unprocessable request: ".to_owned();
                m.append(text.as_str());
                m
            },
            ApiError::NotImplemented => "not implemented".to_owned(),
        }
    }
}

/// What a lookup answers: the row, or `NotFound` where there is none.
pub fn found<T>(row: Option<T>) -> (r: core::result::Result<T, ApiError>)
    ensures
        match row {
            Some(item) => r == Ok::<T, ApiError>(item),
            None => r matches Err(e) && e is NotFound,
        },
{
    match row {
        Some(item) => Ok(item),
        None => Err(ApiError::NotFound),
    }
}

/// The fingerprint that stands in for a key that the service does not hold:
/// `fp-` and the identifier of the row.
pub fn row_fingerprint(id: &str) -> (r: String)
    ensures
        r@ == "fp-"@ + id@,
{
    let mut text = "fp-".to_owned();
    text.append(id);
    text
}

/// Reads the public key of a certificate request from its base64 form.
pub fn decode_public_key(public_key_b64: &str) -> (r: core::result::Result<Vec<u8>, ApiError>)
    ensures
        match r {
            Ok(bytes) => base64_bytes(public_key_b64@) == Ok::<Seq<u8>, Seq<char>>(bytes@),
            Err(e) => base64_bytes(public_key_b64@) matches Err(text) && e matches ApiError::Invalid(
                m,
            ) && m@ == "invalid public key b64: "@ + text,
        },
{
    match base64_decode(public_key_b64) {
        Ok(bytes) => Ok(bytes),
        Err(text) => {
            let mut m = "invalid public key b64: ".to_owned();
            m.append(text.as_str());
            Err(ApiError::Invalid(m))
        },
    }
}

/// The version of a trust bundle: its time of issue in milliseconds, in decimal.
pub fn bundle_version(issued_at_millis: i64) -> (r: String)
    ensures
        r@ == signed_decimal_text(issued_at_millis as int),
{
    signed_decimal(issued_at_millis)
}

/// The fingerprint that stands as the detached signature of a trust bundle:
/// the lowercase hex SHA-256 of the bundle's payload bytes.
pub fn bundle_signature(payload_bytes: &[u8]) -> (r: String)
    ensures
        r@ == sha256_hex_text(payload_bytes@),
        r@.len() == 64,
{
    sha256_hex(payload_bytes)
}

} // verus!
