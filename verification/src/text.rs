//! Small text helpers: decimal numbers, file names and timestamps.

use crate::types::text_view;
use vstd::prelude::*;
use vstd::string::StrSliceExecFns;
use vstd::string::StringExecFns;

verus! {

/// The character that writes a digit.
pub open spec fn digit_char(d: int) -> char {
    if d == 0 {
        '0'
    } else if d == 1 {
        '1'
    } else if d == 2 {
        '2'
    } else if d == 3 {
        '3'
    } else if d == 4 {
        '4'
    } else if d == 5 {
        '5'
    } else if d == 6 {
        '6'
    } else if d == 7 {
        '7'
    } else if d == 8 {
        '8'
    } else {
        '9'
    }
}

/// A natural number in decimal, without leading zeros.
pub open spec fn decimal_text(n: nat) -> Seq<char>
    decreases n,
{
    if n < 10 {
        seq![digit_char(n as int)]
    } else {
        decimal_text(n / 10).push(digit_char((n % 10) as int))
    }
}

/// An integer in decimal, with a minus sign where it is negative.
pub open spec fn signed_decimal_text(n: int) -> Seq<char> {
    if n < 0 {
        seq!['-'] + decimal_text((-n) as nat)
    } else {
        decimal_text(n as nat)
    }
}

/// Whether `char::is_alphanumeric` holds of a character.
pub uninterp spec fn is_alphanumeric(c: char) -> bool;

/// What `chrono` writes for the UTC time that lies the given number of
/// seconds after the Unix epoch, in the form `%Y-%m-%d %H:%M:%S UTC`; `None`
/// where `chrono` has no such time.
pub uninterp spec fn utc_text(seconds: i64) -> Option<Seq<char>>;

/// `char::is_alphanumeric`.
#[verifier::external_body]
fn char_is_alphanumeric(c: char) -> (r: bool)
    ensures
        r == is_alphanumeric(c),
{
    c.is_alphanumeric()
}

/// `chrono::DateTime::from_timestamp` with no nanoseconds, written with
/// `format("%Y-%m-%d %H:%M:%S UTC")`; `None` where `from_timestamp` gives none.
#[verifier::external_body]
fn utc_time_text(seconds: i64) -> (r: Option<String>)
    ensures
        text_view(r) == utc_text(seconds),
{
    match chrono::DateTime::from_timestamp(seconds, 0) {
        Some(t) => Some(t.format("%Y-%m-%d %H:%M:%S UTC").to_string()),
        None => None,
    }
}

/// The text that writes a digit.
fn digit(d: u64) -> (r: &'static str)
    requires
        d < 10,
    ensures
        r@ == seq![digit_char(d as int)],
{
    proof {
        reveal_strlit("0");
        reveal_strlit("1");
        reveal_strlit("2");
        reveal_strlit("3");
        reveal_strlit("4");
        reveal_strlit("5");
        reveal_strlit("6");
        reveal_strlit("7");
        reveal_strlit("8");
        reveal_strlit("9");
    }
    let r = if d == 0 {
        "0"
    } else if d == 1 {
        "1"
    } else if d == 2 {
        "2"
    } else if d == 3 {
        "3"
    } else if d == 4 {
        "4"
    } else if d == 5 {
        "5"
    } else if d == 6 {
        "6"
    } else if d == 7 {
        "7"
    } else if d == 8 {
        "8"
    } else {
        "9"
    };
    assert(r@ =~= seq![digit_char(d as int)]);
    r
}

/// Writes a natural number in decimal.
pub fn decimal(n: u64) -> (r: String)
    ensures
        r@ == decimal_text(n as nat),
    decreases n,
{
    if n < 10 {
        let text = digit(n).to_owned();
        text
    } else {
        let mut text = decimal(n / 10);
        text.append(digit(n % 10));
        assert(text@ =~= decimal_text(n as nat));
        text
    }
}

/// Writes an integer in decimal.
pub fn signed_decimal(n: i64) -> (r: String)
    ensures
        r@ == signed_decimal_text(n as int),
{
    if n < 0 {
        let magnitude: u64 = (-(n + 1)) as u64 + 1;
        let mut text = "-".to_owned();
        let digits = decimal(magnitude);
        text.append(digits.as_str());
        proof {
            reveal_strlit("-");
            assert("-"@ =~= seq!['-']);
        }
        text
    } else {
        decimal(n as u64)
    }
}

/// The character that stands in a file name for `c`, given whether `c` is a
/// letter or a digit: letters, digits, hyphens and underscores stay, every
/// other character becomes an underscore.
pub open spec fn file_name_char_of(c: char, alphanumeric: bool) -> char {
    if alphanumeric || c == '-' || c == '_' {
        c
    } else {
        '_'
    }
}

/// Chooses the character that stands in a file name for `c`, given whether
/// `c` is a letter or a digit.
pub fn file_name_char(c: char, alphanumeric: bool) -> (r: char)
    ensures
        r == file_name_char_of(c, alphanumeric),
{
    if alphanumeric || c == '-' || c == '_' {
        c
    } else {
        '_'
    }
}

/// A text with every character that may not stand in a file name replaced
/// by an underscore.
pub open spec fn sanitized(s: Seq<char>) -> Seq<char> {
    Seq::new(s.len(), |i: int| file_name_char_of(s[i], is_alphanumeric(s[i])))
}

/// Makes a file name out of an identity: letters, digits, hyphens and
/// underscores stay, every other character becomes an underscore.
pub fn sanitize_filename(s: &str) -> (r: String)
    ensures
        r@ == sanitized(s@),
{
    let count = s.unicode_len();
    let mut out = String::new();
    let mut i: usize = 0;
    while i < count
        invariant
            0 <= i <= count,
            count == s@.len(),
            out@ == sanitized(s@).take(i as int),
        decreases count - i,
    {
        let c = s.get_char(i);
        let written = file_name_char(c, char_is_alphanumeric(c));
        if written == c {
            out.append(s.substring_char(i, i + 1));
        } else {
            proof {
                reveal_strlit("_");
            }
            out.append("_");
        }
        assert(out@ =~= sanitized(s@).take(i as int + 1));
        i = i + 1;
    }
    assert(sanitized(s@).take(i as int) =~= sanitized(s@));
    out
}

/// What a certificate is called by its place in a chain: the first is the
/// creator's, and of the others, those that may issue are authorities.
pub fn chain_role(index: usize, is_ca: bool) -> (r: &'static str)
    ensures
        r@ == (if index == 0 {
            "Creator"@
        } else if is_ca {
            "CA"@
        } else {
            "Intermediate"@
        }),
{
    if index == 0 {
        "Creator"
    } else if is_ca {
        "CA"
    } else {
        "Intermediate"
    }
}

/// A Unix time as a reader sees it: the UTC date and time where there is
/// one, else the number of seconds.
pub open spec fn timestamp_text(seconds: i64) -> Seq<char> {
    match utc_text(seconds) {
        Some(t) => t,
        None => signed_decimal_text(seconds as int),
    }
}

/// Writes a Unix time for a reader.
pub fn format_timestamp(ts: i64) -> (r: String)
    ensures
        r@ == timestamp_text(ts),
{
    match utc_time_text(ts) {
        Some(t) => t,
        None => signed_decimal(ts),
    }
}

} // verus!
