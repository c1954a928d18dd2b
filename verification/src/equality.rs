//! Equality of records by their content.

use crate::bytes::bytes_equal;
use crate::types::{
    chain_view, entries_view, text_view, AletheiaFile, Certificate, CustomValue, Header,
};
use vstd::prelude::*;

verus! {

/// Whether two optional texts are the same.
pub fn same_text(a: &Option<String>, b: &Option<String>) -> (r: bool)
    ensures
        r == (text_view(*a) == text_view(*b)),
{
    match (a, b) {
        (Some(x), Some(y)) => *x == *y,
        (None, None) => true,
        _ => false,
    }
}

/// Whether two custom values are the same.
pub fn same_value(a: &CustomValue, b: &CustomValue) -> (r: bool)
    ensures
        r == (a@ == b@),
{
    match (a, b) {
        (CustomValue::Null, CustomValue::Null) => true,
        (CustomValue::Bool(x), CustomValue::Bool(y)) => *x == *y,
        (CustomValue::Integer(x), CustomValue::Integer(y)) => *x == *y,
        (CustomValue::Text(x), CustomValue::Text(y)) => *x == *y,
        (CustomValue::Bytes(x), CustomValue::Bytes(y)) => bytes_equal(x.as_slice(), y.as_slice()),
        _ => false,
    }
}

/// Whether two lists of custom entries are the same.
pub fn same_entries(a: &Vec<(String, CustomValue)>, b: &Vec<(String, CustomValue)>) -> (r: bool)
    ensures
        r == (entries_view(a@) == entries_view(b@)),
{
    if a.len() != b.len() {
        assert(entries_view(a@).len() != entries_view(b@).len());
        return false;
    }
    let mut i: usize = 0;
    while i < a.len()
        invariant
            0 <= i <= a.len(),
            a@.len() == b@.len(),
            forall|j: int| 0 <= j < i ==> entries_view(a@)[j] == entries_view(b@)[j],
        decreases a.len() - i,
    {
        let same = a[i].0 == b[i].0 && same_value(&a[i].1, &b[i].1);
        if !same {
            assert(entries_view(a@)[i as int] != entries_view(b@)[i as int]);
            return false;
        }
        i = i + 1;
    }
    assert(entries_view(a@) =~= entries_view(b@));
    true
}

/// Whether two headers are the same.
pub fn same_header(a: &Header, b: &Header) -> (r: bool)
    ensures
        r == (a@ == b@),
{
    let custom = match (&a.custom, &b.custom) {
        (Some(x), Some(y)) => same_entries(x, y),
        (None, None) => true,
        _ => false,
    };
    same_text(&a.content_type, &b.content_type) && a.signed_at == b.signed_at && a.creator_id
        == b.creator_id && same_text(&a.original_name, &b.original_name) && same_text(
        &a.description,
        &b.description,
    ) && custom
}

/// Whether two certificates are the same.
pub fn same_certificate(a: &Certificate, b: &Certificate) -> (r: bool)
    ensures
        r == (a@ == b@),
{
    a.version == b.version && bytes_equal(a.serial.as_slice(), b.serial.as_slice())
        && a.subject_id == b.subject_id && a.subject_name == b.subject_name && bytes_equal(
        a.public_key.as_slice(),
        b.public_key.as_slice(),
    ) && a.issuer_id == b.issuer_id && a.issued_at == b.issued_at && a.is_ca == b.is_ca
        && bytes_equal(a.signature.as_slice(), b.signature.as_slice())
}

/// Whether two chains are the same.
pub fn same_chain(a: &[Certificate], b: &[Certificate]) -> (r: bool)
    ensures
        r == (chain_view(a@) == chain_view(b@)),
{
    if a.len() != b.len() {
        assert(chain_view(a@).len() != chain_view(b@).len());
        return false;
    }
    let mut i: usize = 0;
    while i < a.len()
        invariant
            0 <= i <= a.len(),
            a@.len() == b@.len(),
            forall|j: int| 0 <= j < i ==> chain_view(a@)[j] == chain_view(b@)[j],
        decreases a.len() - i,
    {
        if !same_certificate(&a[i], &b[i]) {
            assert(chain_view(a@)[i as int] != chain_view(b@)[i as int]);
            return false;
        }
        i = i + 1;
    }
    assert(chain_view(a@) =~= chain_view(b@));
    true
}

/// Whether two envelopes are the same.
pub fn same_file(a: &AletheiaFile, b: &AletheiaFile) -> (r: bool)
    ensures
        r == (a@ == b@),
{
    let x = a.flags.to_bytes();
    let y = b.flags.to_bytes();
    let flags = x[0] == y[0] && x[1] == y[1];
    assert(flags == (a.flags.bits() == b.flags.bits()));
    a.version_major == b.version_major && a.version_minor == b.version_minor && flags
        && same_header(&a.header, &b.header) && bytes_equal(
        a.payload.as_slice(),
        b.payload.as_slice(),
    ) && same_chain(a.certificate_chain.as_slice(), b.certificate_chain.as_slice())
        && bytes_equal(a.signature.as_slice(), b.signature.as_slice())
}

} // verus!
