//! The canonical forms of the records that are signed: which fields a record
//! holds, in which order, and as which kind of item.

use crate::bytes::clone_bytes;
use crate::codec::{
    bytes_result_view, encode_value, encoded, entry_models_of, lemma_array_model, lemma_dict_model,
    models_of, CborModel, CborValue,
};
use crate::error::{AletheiaError, ErrorView, Outcome, Result};
use crate::types::{
    chain_view, entries_view, text_view, Certificate, CertificateView, CustomValue, Header,
    HeaderView, ValueView,
};
use vstd::prelude::*;

verus! {

/// A map entry whose key is a text.
pub open spec fn entry(name: Seq<char>, value: CborModel) -> (CborModel, CborModel) {
    (CborModel::Text(name), value)
}

/// The entries of a certificate without its signature, in declaration order.
pub open spec fn unsigned_entries(c: CertificateView) -> Seq<(CborModel, CborModel)> {
    seq![
        entry("version"@, CborModel::Integer(c.version as i64)),
        entry("serial"@, CborModel::Bytes(c.serial)),
        entry("subject_id"@, CborModel::Text(c.subject_id)),
        entry("subject_name"@, CborModel::Text(c.subject_name)),
        entry("public_key"@, CborModel::Bytes(c.public_key)),
        entry("issuer_id"@, CborModel::Text(c.issuer_id)),
        entry("issued_at"@, CborModel::Integer(c.issued_at)),
        entry("is_ca"@, CborModel::Bool(c.is_ca)),
    ]
}

/// The canonical form of what an issuer signs: every field but the signature.
pub open spec fn unsigned_certificate_model(c: CertificateView) -> CborModel {
    CborModel::Dict(unsigned_entries(c))
}

/// The canonical form of a certificate.
pub open spec fn certificate_model(c: CertificateView) -> CborModel {
    CborModel::Dict(unsigned_entries(c).push(entry("signature"@, CborModel::Bytes(c.signature))))
}

/// The canonical form of a chain: its certificates in order.
pub open spec fn chain_model(chain: Seq<CertificateView>) -> CborModel {
    CborModel::Array(Seq::new(chain.len(), |i: int| certificate_model(chain[i])))
}

/// The entry of an optional text: none where the text is absent.
pub open spec fn optional_text_entry(name: Seq<char>, value: Option<Seq<char>>) -> Seq<
    (CborModel, CborModel),
> {
    match value {
        Some(t) => seq![entry(name, CborModel::Text(t))],
        None => seq![],
    }
}

/// The canonical form of a custom metadata value.
pub open spec fn custom_value_model(v: ValueView) -> CborModel {
    match v {
        ValueView::Null => CborModel::Null,
        ValueView::Bool(b) => CborModel::Bool(b),
        ValueView::Integer(i) => CborModel::Integer(i),
        ValueView::Text(t) => CborModel::Text(t),
        ValueView::Bytes(b) => CborModel::Bytes(b),
    }
}

/// The entries of the custom metadata, in list order.
pub open spec fn custom_entries(entries: Seq<(Seq<char>, ValueView)>) -> Seq<
    (CborModel, CborModel),
> {
    Seq::new(entries.len(), |i: int| entry(entries[i].0, custom_value_model(entries[i].1)))
}

/// The entry of the custom metadata: none where there is no metadata.
pub open spec fn optional_custom_entry(custom: Option<Seq<(Seq<char>, ValueView)>>) -> Seq<
    (CborModel, CborModel),
> {
    match custom {
        Some(entries) => seq![entry("custom"@, CborModel::Dict(custom_entries(entries)))],
        None => seq![],
    }
}

/// The entries of a header, in declaration order; absent fields are left out.
pub open spec fn header_entries(h: HeaderView) -> Seq<(CborModel, CborModel)> {
    optional_text_entry("content_type"@, h.content_type) + seq![
        entry("signed_at"@, CborModel::Integer(h.signed_at)),
        entry("creator_id"@, CborModel::Text(h.creator_id)),
    ] + optional_text_entry("original_name"@, h.original_name) + optional_text_entry(
        "description"@,
        h.description,
    ) + optional_custom_entry(h.custom)
}

/// The canonical form of a header.
pub open spec fn header_model(h: HeaderView) -> CborModel {
    CborModel::Dict(header_entries(h))
}

/// A copy of a certificate.
pub fn clone_certificate(c: &Certificate) -> (r: Certificate)
    ensures
        r@ == c@,
{
    Certificate {
        version: c.version,
        serial: clone_bytes(&c.serial),
        subject_id: c.subject_id.clone(),
        subject_name: c.subject_name.clone(),
        public_key: clone_bytes(&c.public_key),
        issuer_id: c.issuer_id.clone(),
        issued_at: c.issued_at,
        is_ca: c.is_ca,
        signature: clone_bytes(&c.signature),
    }
}

/// A copy of a chain.
pub fn clone_chain(chain: &Vec<Certificate>) -> (r: Vec<Certificate>)
    ensures
        chain_view(r@) == chain_view(chain@),
{
    let mut out: Vec<Certificate> = Vec::new();
    let mut i: usize = 0;
    while i < chain.len()
        invariant
            0 <= i <= chain.len(),
            out@.len() == i,
            forall|j: int| 0 <= j < i ==> (#[trigger] out@[j])@ == chain@[j]@,
        decreases chain.len() - i,
    {
        out.push(clone_certificate(&chain[i]));
        i = i + 1;
    }
    assert(chain_view(out@) =~= chain_view(chain@));
    out
}

/// Appends the entry `name: value`.
fn push_entry(entries: &mut Vec<(CborValue, CborValue)>, name: &str, value: CborValue)
    ensures
        entry_models_of(final(entries)@) == entry_models_of(old(entries)@).push(
            entry(name@, value@),
        ),
{
    let key = CborValue::Text(name.to_owned());
    entries.push((key, value));
    assert(entry_models_of(entries@) =~= entry_models_of(old(entries)@).push(
        entry(name@, value@),
    ));
}

/// Appends the entry of an optional text.
fn push_optional_text(
    entries: &mut Vec<(CborValue, CborValue)>,
    name: &str,
    value: &Option<String>,
)
    ensures
        entry_models_of(final(entries)@) == entry_models_of(old(entries)@) + optional_text_entry(
            name@,
            text_view(*value),
        ),
{
    match value {
        Some(t) => {
            push_entry(entries, name, CborValue::Text(t.clone()));
            assert(entry_models_of(entries@) =~= entry_models_of(old(entries)@)
                + optional_text_entry(name@, text_view(*value)));
        },
        None => {
            assert(entry_models_of(entries@) =~= entry_models_of(old(entries)@)
                + optional_text_entry(name@, text_view(*value)));
        },
    }
}

/// The item that holds a custom metadata value.
fn custom_value_to_cbor(v: &CustomValue) -> (r: CborValue)
    ensures
        r@ == custom_value_model(v@),
{
    match v {
        CustomValue::Null => CborValue::Null,
        CustomValue::Bool(b) => CborValue::Bool(*b),
        CustomValue::Integer(i) => CborValue::Integer(*i),
        CustomValue::Text(t) => CborValue::Text(t.clone()),
        CustomValue::Bytes(b) => CborValue::Bytes(clone_bytes(b)),
    }
}

/// The map that holds the custom metadata.
fn custom_to_cbor(custom: &Vec<(String, CustomValue)>) -> (r: CborValue)
    ensures
        r@ == CborModel::Dict(custom_entries(entries_view(custom@))),
{
    let mut entries: Vec<(CborValue, CborValue)> = Vec::new();
    let mut i: usize = 0;
    while i < custom.len()
        invariant
            0 <= i <= custom.len(),
            entry_models_of(entries@) == custom_entries(entries_view(custom@)).take(i as int),
        decreases custom.len() - i,
    {
        let value = custom_value_to_cbor(&custom[i].1);
        push_entry(&mut entries, custom[i].0.as_str(), value);
        assert(entry_models_of(entries@) =~= custom_entries(entries_view(custom@)).take(
            i as int + 1,
        ));
        i = i + 1;
    }
    assert(custom_entries(entries_view(custom@)).take(i as int) =~= custom_entries(
        entries_view(custom@),
    ));
    proof {
        lemma_dict_model(entries);
    }
    CborValue::Dict(entries)
}

/// The canonical form of a header, as an item.
pub fn header_to_cbor(h: &Header) -> (r: CborValue)
    ensures
        r@ == header_model(h@),
{
    let mut entries: Vec<(CborValue, CborValue)> = Vec::new();
    assert(entry_models_of(entries@) =~= Seq::empty());
    push_optional_text(&mut entries, "content_type", &h.content_type);
    push_entry(&mut entries, "signed_at", CborValue::Integer(h.signed_at));
    push_entry(&mut entries, "creator_id", CborValue::Text(h.creator_id.clone()));
    push_optional_text(&mut entries, "original_name", &h.original_name);
    push_optional_text(&mut entries, "description", &h.description);
    match &h.custom {
        Some(custom) => {
            let value = custom_to_cbor(custom);
            push_entry(&mut entries, "custom", value);
        },
        None => {},
    }
    assert(entry_models_of(entries@) =~= header_entries(h@));
    proof {
        lemma_dict_model(entries);
    }
    CborValue::Dict(entries)
}

/// The entries of a certificate without its signature, as items.
fn unsigned_entries_to_cbor(c: &Certificate) -> (entries: Vec<(CborValue, CborValue)>)
    ensures
        entry_models_of(entries@) == unsigned_entries(c@),
{
    let mut entries: Vec<(CborValue, CborValue)> = Vec::new();
    assert(entry_models_of(entries@) =~= Seq::empty());
    push_entry(&mut entries, "version", CborValue::Integer(c.version as i64));
    push_entry(&mut entries, "serial", CborValue::Bytes(clone_bytes(&c.serial)));
    push_entry(&mut entries, "subject_id", CborValue::Text(c.subject_id.clone()));
    push_entry(&mut entries, "subject_name", CborValue::Text(c.subject_name.clone()));
    push_entry(&mut entries, "public_key", CborValue::Bytes(clone_bytes(&c.public_key)));
    push_entry(&mut entries, "issuer_id", CborValue::Text(c.issuer_id.clone()));
    push_entry(&mut entries, "issued_at", CborValue::Integer(c.issued_at));
    push_entry(&mut entries, "is_ca", CborValue::Bool(c.is_ca));
    assert(entry_models_of(entries@) =~= unsigned_entries(c@));
    entries
}

/// The canonical form of what an issuer signs, as an item.
pub fn unsigned_certificate_to_cbor(c: &Certificate) -> (r: CborValue)
    ensures
        r@ == unsigned_certificate_model(c@),
{
    let entries = unsigned_entries_to_cbor(c);
    proof {
        lemma_dict_model(entries);
    }
    CborValue::Dict(entries)
}

/// The canonical form of a certificate, as an item.
pub fn certificate_to_cbor(c: &Certificate) -> (r: CborValue)
    ensures
        r@ == certificate_model(c@),
{
    let mut entries = unsigned_entries_to_cbor(c);
    push_entry(&mut entries, "signature", CborValue::Bytes(clone_bytes(&c.signature)));
    proof {
        lemma_dict_model(entries);
    }
    CborValue::Dict(entries)
}

/// The canonical form of a chain, as an item.
pub fn chain_to_cbor(chain: &[Certificate]) -> (r: CborValue)
    ensures
        r@ == chain_model(chain_view(chain@)),
{
    let mut items: Vec<CborValue> = Vec::new();
    let mut i: usize = 0;
    while i < chain.len()
        invariant
            0 <= i <= chain.len(),
            items@.len() == i,
            models_of(items@) == chain_model(chain_view(chain@))->Array_0.take(i as int),
        decreases chain.len() - i,
    {
        let item = certificate_to_cbor(&chain[i]);
        let ghost before = items@;
        items.push(item);
        proof {
            let target = chain_model(chain_view(chain@))->Array_0;
            assert(chain_view(chain@)[i as int] == chain@[i as int]@);
            assert(target[i as int] == certificate_model(chain_view(chain@)[i as int]));
            assert forall|j: int| 0 <= j < i + 1 implies models_of(items@)[j] == target[j] by {
                if j < i {
                    assert(models_of(before)[j] == target.take(i as int)[j]);
                }
            }
            assert(models_of(items@) =~= target.take(i as int + 1));
        }
        i = i + 1;
    }
    assert(models_of(items@) =~= chain_model(chain_view(chain@))->Array_0);
    proof {
        lemma_array_model(items);
    }
    CborValue::Array(items)
}

/// The canonical encoding of a header. A header whose custom metadata is no
/// map, because its keys do not ascend, has none.
pub open spec fn header_encoding(h: HeaderView) -> Outcome<Seq<u8>> {
    if !h.well_formed() {
        Err(ErrorView::InvalidHeader("custom metadata keys do not ascend"@))
    } else {
        encoded(header_model(h))
    }
}

/// The canonical encoding of a chain.
pub open spec fn chain_encoding(chain: Seq<CertificateView>) -> Outcome<Seq<u8>> {
    encoded(chain_model(chain))
}

/// The canonical encoding of a certificate.
pub open spec fn certificate_encoding(c: CertificateView) -> Outcome<Seq<u8>> {
    encoded(certificate_model(c))
}

/// The bytes that an issuer signs.
pub open spec fn signable_encoding(c: CertificateView) -> Outcome<Seq<u8>> {
    encoded(unsigned_certificate_model(c))
}

/// Encodes a header canonically. Fails exactly where the header's custom
/// metadata is no map.
pub fn encode_header(h: &Header) -> (r: Result<Vec<u8>>)
    ensures
        bytes_result_view(r) == header_encoding(h@),
        r is Ok <==> h@.well_formed(),
{
    if !h.is_well_formed() {
        return Err(AletheiaError::InvalidHeader("custom metadata keys do not ascend".to_owned()));
    }
    let item = header_to_cbor(h);
    encode_value(&item)
}

/// Encodes a chain canonically. Every chain has an encoding.
pub fn encode_chain(chain: &[Certificate]) -> (r: Result<Vec<u8>>)
    ensures
        bytes_result_view(r) == chain_encoding(chain_view(chain@)),
        r is Ok,
{
    let item = chain_to_cbor(chain);
    encode_value(&item)
}

/// Encodes a certificate canonically. Every certificate has an encoding.
pub fn encode_certificate(c: &Certificate) -> (r: Result<Vec<u8>>)
    ensures
        bytes_result_view(r) == certificate_encoding(c@),
        r is Ok,
{
    let item = certificate_to_cbor(c);
    encode_value(&item)
}

impl Certificate {
    /// The bytes that the issuer signs: the canonical encoding of every field
    /// but the signature.
    pub fn signable_data(&self) -> (r: Vec<u8>)
        ensures
            signable_encoding(self@) == Ok::<Seq<u8>, ErrorView>(r@),
    {
        let item = unsigned_certificate_to_cbor(self);
        match encode_value(&item) {
            Ok(bytes) => bytes,
            Err(_) => unreached(),
        }
    }
}

} // verus!
