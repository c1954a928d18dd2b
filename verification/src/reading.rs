//! Reading records back: which items are taken for a header, a certificate
//! or a chain. Keys may come in any order, keys unknown here are passed over,
//! tags are looked through, and a key that occurs twice spoils the record.

use crate::bytes::clone_bytes;
use crate::codec::{
    decode_value, decoded, entry_models_of, lemma_array_model, lemma_dict_model, models_of,
    CborModel, CborValue,
};
use crate::error::{AletheiaError, ErrorView, Outcome, Result};
use crate::types::{
    chain_view, custom_is_ordered, custom_ordered, entries_view, text_view, Certificate,
    CertificateView, CustomValue, Header, HeaderView, ValueView,
};
use vstd::prelude::*;

verus! {

/// An item without the tags wrapped around it.
pub open spec fn untagged(m: CborModel) -> CborModel
    decreases m,
{
    match m {
        CborModel::Tag(_, inner) => untagged(*inner),
        _ => m,
    }
}

/// What a map holds under a name.
pub enum Lookup {
    /// No entry has the name as its key.
    Missing,
    /// One entry has the name as its key; this is its value.
    Found(CborModel),
    /// Two or more entries have the name as their key.
    Duplicate,
}

/// What the entries hold under `name`.
pub open spec fn lookup(entries: Seq<(CborModel, CborModel)>, name: Seq<char>) -> Lookup
    decreases entries.len(),
{
    if entries.len() == 0 {
        Lookup::Missing
    } else {
        let rest = lookup(entries.drop_last(), name);
        if untagged(entries.last().0) == CborModel::Text(name) {
            match rest {
                Lookup::Missing => Lookup::Found(entries.last().1),
                _ => Lookup::Duplicate,
            }
        } else {
            rest
        }
    }
}

/// Whether every key is a text.
pub open spec fn keys_are_text(entries: Seq<(CborModel, CborModel)>) -> bool {
    forall|i: int| 0 <= i < entries.len() ==> untagged(#[trigger] entries[i].0) is Text
}

/// The text that an item is, if it is one.
pub open spec fn as_text(m: CborModel) -> Option<Seq<char>> {
    match untagged(m) {
        CborModel::Text(t) => Some(t),
        _ => None,
    }
}

/// The byte string that an item is, if it is one.
pub open spec fn as_bytes(m: CborModel) -> Option<Seq<u8>> {
    match untagged(m) {
        CborModel::Bytes(b) => Some(b),
        _ => None,
    }
}

/// The integer that an item is, if it is one.
pub open spec fn as_integer(m: CborModel) -> Option<i64> {
    match untagged(m) {
        CborModel::Integer(i) => Some(i),
        _ => None,
    }
}

/// The boolean that an item is, if it is one.
pub open spec fn as_bool(m: CborModel) -> Option<bool> {
    match untagged(m) {
        CborModel::Bool(b) => Some(b),
        _ => None,
    }
}

/// The text under `name`, where exactly one entry has that key and holds a text.
pub open spec fn text_field(entries: Seq<(CborModel, CborModel)>, name: Seq<char>) -> Option<
    Seq<char>,
> {
    match lookup(entries, name) {
        Lookup::Found(v) => as_text(v),
        _ => None,
    }
}

/// The byte string under `name`, where exactly one entry has that key and holds one.
pub open spec fn bytes_field(entries: Seq<(CborModel, CborModel)>, name: Seq<char>) -> Option<
    Seq<u8>,
> {
    match lookup(entries, name) {
        Lookup::Found(v) => as_bytes(v),
        _ => None,
    }
}

/// The integer under `name`, where exactly one entry has that key and holds one.
pub open spec fn integer_field(entries: Seq<(CborModel, CborModel)>, name: Seq<char>) -> Option<
    i64,
> {
    match lookup(entries, name) {
        Lookup::Found(v) => as_integer(v),
        _ => None,
    }
}

/// The boolean under `name`, where exactly one entry has that key and holds one.
pub open spec fn bool_field(entries: Seq<(CborModel, CborModel)>, name: Seq<char>) -> Option<
    bool,
> {
    match lookup(entries, name) {
        Lookup::Found(v) => as_bool(v),
        _ => None,
    }
}

/// The optional text under `name`: absent where no entry has that key or the
/// entry holds null; no result where the key occurs twice or holds anything else.
pub open spec fn optional_text_field(
    entries: Seq<(CborModel, CborModel)>,
    name: Seq<char>,
) -> Option<Option<Seq<char>>> {
    match lookup(entries, name) {
        Lookup::Missing => Some(None),
        Lookup::Found(v) => match untagged(v) {
            CborModel::Null => Some(None),
            CborModel::Text(t) => Some(Some(t)),
            _ => None,
        },
        Lookup::Duplicate => None,
    }
}

/// The certificate that a record holds. Keys may come in any order and keys
/// unknown here are passed over; every field must occur once, with its kind.
pub open spec fn certificate_parse(m: CborModel) -> Option<CertificateView> {
    match untagged(m) {
        CborModel::Dict(entries) => {
            if !keys_are_text(entries) {
                None
            } else {
                match (
                    integer_field(entries, "version"@),
                    bytes_field(entries, "serial"@),
                    text_field(entries, "subject_id"@),
                    text_field(entries, "subject_name"@),
                    bytes_field(entries, "public_key"@),
                    text_field(entries, "issuer_id"@),
                    integer_field(entries, "issued_at"@),
                    bool_field(entries, "is_ca"@),
                    bytes_field(entries, "signature"@),
                ) {
                    (
                        Some(version),
                        Some(serial),
                        Some(subject_id),
                        Some(subject_name),
                        Some(public_key),
                        Some(issuer_id),
                        Some(issued_at),
                        Some(is_ca),
                        Some(signature),
                    ) => {
                        if 0 <= version <= 255 {
                            Some(
                                CertificateView {
                                    version: version as u8,
                                    serial,
                                    subject_id,
                                    subject_name,
                                    public_key,
                                    issuer_id,
                                    issued_at,
                                    is_ca,
                                    signature,
                                },
                            )
                        } else {
                            None
                        }
                    },
                    _ => None,
                }
            }
        },
        _ => None,
    }
}

/// The chain that an array of certificate records holds.
pub open spec fn chain_parse(m: CborModel) -> Option<Seq<CertificateView>> {
    match untagged(m) {
        CborModel::Array(items) => {
            if forall|i: int| 0 <= i < items.len() ==> certificate_parse(#[trigger] items[i]) is Some {
                Some(Seq::new(items.len(), |i: int| certificate_parse(items[i])->0))
            } else {
                None
            }
        },
        _ => None,
    }
}

/// The custom metadata value that an item holds, if it is a primitive.
pub open spec fn custom_value_parse(m: CborModel) -> Option<ValueView> {
    match untagged(m) {
        CborModel::Null => Some(ValueView::Null),
        CborModel::Bool(b) => Some(ValueView::Bool(b)),
        CborModel::Integer(i) => Some(ValueView::Integer(i)),
        CborModel::Text(t) => Some(ValueView::Text(t)),
        CborModel::Bytes(b) => Some(ValueView::Bytes(b)),
        _ => None,
    }
}

/// The custom metadata entry that a map entry holds.
pub open spec fn custom_entry_parse(e: (CborModel, CborModel)) -> Option<(Seq<char>, ValueView)> {
    match (as_text(e.0), custom_value_parse(e.1)) {
        (Some(k), Some(v)) => Some((k, v)),
        _ => None,
    }
}

/// The custom metadata that the entries of a map hold, in their order.
pub open spec fn custom_parse(entries: Seq<(CborModel, CborModel)>) -> Option<
    Seq<(Seq<char>, ValueView)>,
> {
    if forall|i: int| 0 <= i < entries.len() ==> custom_entry_parse(#[trigger] entries[i]) is Some {
        Some(Seq::new(entries.len(), |i: int| custom_entry_parse(entries[i])->0))
    } else {
        None
    }
}

/// The optional custom metadata under the key `custom`: a map whose keys
/// are texts that ascend strictly and whose values are primitives.
pub open spec fn custom_field(entries: Seq<(CborModel, CborModel)>) -> Option<
    Option<Seq<(Seq<char>, ValueView)>>,
> {
    match lookup(entries, "custom"@) {
        Lookup::Missing => Some(None),
        Lookup::Found(v) => match untagged(v) {
            CborModel::Null => Some(None),
            CborModel::Dict(inner) => match custom_parse(inner) {
                Some(c) => if custom_ordered(c) {
                    Some(Some(c))
                } else {
                    None
                },
                None => None,
            },
            _ => None,
        },
        Lookup::Duplicate => None,
    }
}

/// The header that a record holds. Keys may come in any order and keys
/// unknown here are passed over; the signing time and the creator must occur.
pub open spec fn header_parse(m: CborModel) -> Option<HeaderView> {
    match untagged(m) {
        CborModel::Dict(entries) => {
            if !keys_are_text(entries) {
                None
            } else {
                match (
                    optional_text_field(entries, "content_type"@),
                    integer_field(entries, "signed_at"@),
                    text_field(entries, "creator_id"@),
                    optional_text_field(entries, "original_name"@),
                    optional_text_field(entries, "description"@),
                    custom_field(entries),
                ) {
                    (
                        Some(content_type),
                        Some(signed_at),
                        Some(creator_id),
                        Some(original_name),
                        Some(description),
                        Some(custom),
                    ) => Some(
                        HeaderView {
                            content_type,
                            signed_at,
                            creator_id,
                            original_name,
                            description,
                            custom,
                        },
                    ),
                    _ => None,
                }
            }
        },
        _ => None,
    }
}

/// The view of an optional byte string.
pub open spec fn bytes_view(b: Option<Vec<u8>>) -> Option<Seq<u8>> {
    match b {
        Some(v) => Some(v@),
        None => None,
    }
}

/// The view of an optional certificate.
pub open spec fn certificate_option_view(c: Option<Certificate>) -> Option<CertificateView> {
    match c {
        Some(v) => Some(v@),
        None => None,
    }
}

/// The view of an optional header.
pub open spec fn header_option_view(h: Option<Header>) -> Option<HeaderView> {
    match h {
        Some(v) => Some(v@),
        None => None,
    }
}

/// The view of an optional chain.
pub open spec fn chain_option_view(c: Option<Vec<Certificate>>) -> Option<Seq<CertificateView>> {
    match c {
        Some(v) => Some(chain_view(v@)),
        None => None,
    }
}

/// The item inside the tags of `v`.
fn untag(v: &CborValue) -> (r: &CborValue)
    ensures
        r@ == untagged(v@),
        !(*r is Tag),
    decreases v,
{
    match v {
        CborValue::Tag(_, inner) => untag(inner),
        _ => v,
    }
}

/// What a scan of a map has found under a name so far.
enum Slot<'a> {
    Missing,
    Found(&'a CborValue),
    Duplicate,
}

impl<'a> Slot<'a> {
    spec fn model(self) -> Lookup {
        match self {
            Slot::Missing => Lookup::Missing,
            Slot::Found(v) => Lookup::Found(v@),
            Slot::Duplicate => Lookup::Duplicate,
        }
    }
}

/// Scans the entries for the key `name`.
fn find<'a>(entries: &'a Vec<(CborValue, CborValue)>, name: &str) -> (r: Slot<'a>)
    ensures
        r.model() == lookup(entry_models_of(entries@), name@),
{
    let wanted: String = name.to_owned();
    let mut state: Slot<'a> = Slot::Missing;
    let mut i: usize = 0;
    while i < entries.len()
        invariant
            0 <= i <= entries.len(),
            wanted@ == name@,
            state.model() == lookup(entry_models_of(entries@).take(i as int), name@),
        decreases entries.len() - i,
    {
        let key = untag(&entries[i].0);
        let hit = match key {
            CborValue::Text(t) => *t == wanted,
            _ => false,
        };
        proof {
            let models = entry_models_of(entries@);
            assert(models.take(i as int + 1).drop_last() =~= models.take(i as int));
            assert(models.take(i as int + 1).last() == models[i as int]);
            assert(hit == (untagged(models[i as int].0) == CborModel::Text(name@)));
        }
        if hit {
            state =
            match state {
                Slot::Missing => Slot::Found(&entries[i].1),
                _ => Slot::Duplicate,
            };
        }
        i = i + 1;
    }
    assert(entry_models_of(entries@).take(i as int) =~= entry_models_of(entries@));
    state
}

/// Whether every key of the entries is a text.
fn keys_all_text(entries: &Vec<(CborValue, CborValue)>) -> (r: bool)
    ensures
        r == keys_are_text(entry_models_of(entries@)),
{
    let mut i: usize = 0;
    while i < entries.len()
        invariant
            0 <= i <= entries.len(),
            forall|j: int|
                0 <= j < i ==> untagged(#[trigger] entry_models_of(entries@)[j].0) is Text,
        decreases entries.len() - i,
    {
        let key = untag(&entries[i].0);
        match key {
            CborValue::Text(_) => {},
            _ => {
                assert(!(untagged(entry_models_of(entries@)[i as int].0) is Text));
                return false;
            },
        }
        i = i + 1;
    }
    true
}

/// The text that an item is, if it is one.
fn text_of(v: &CborValue) -> (r: Option<String>)
    ensures
        text_view(r) == as_text(v@),
{
    match untag(v) {
        CborValue::Text(t) => Some(t.clone()),
        _ => None,
    }
}

/// The byte string that an item is, if it is one.
fn bytes_of(v: &CborValue) -> (r: Option<Vec<u8>>)
    ensures
        bytes_view(r) == as_bytes(v@),
{
    match untag(v) {
        CborValue::Bytes(b) => Some(clone_bytes(b)),
        _ => None,
    }
}

/// The integer that an item is, if it is one.
fn integer_of(v: &CborValue) -> (r: Option<i64>)
    ensures
        r == as_integer(v@),
{
    match untag(v) {
        CborValue::Integer(i) => Some(*i),
        _ => None,
    }
}

/// The boolean that an item is, if it is one.
fn bool_of(v: &CborValue) -> (r: Option<bool>)
    ensures
        r == as_bool(v@),
{
    match untag(v) {
        CborValue::Bool(b) => Some(*b),
        _ => None,
    }
}

/// Reads the text under `name`.
fn get_text(entries: &Vec<(CborValue, CborValue)>, name: &str) -> (r: Option<String>)
    ensures
        text_view(r) == text_field(entry_models_of(entries@), name@),
{
    match find(entries, name) {
        Slot::Found(v) => text_of(v),
        _ => None,
    }
}

/// Reads the byte string under `name`.
fn get_bytes(entries: &Vec<(CborValue, CborValue)>, name: &str) -> (r: Option<Vec<u8>>)
    ensures
        bytes_view(r) == bytes_field(entry_models_of(entries@), name@),
{
    match find(entries, name) {
        Slot::Found(v) => bytes_of(v),
        _ => None,
    }
}

/// Reads the integer under `name`.
fn get_integer(entries: &Vec<(CborValue, CborValue)>, name: &str) -> (r: Option<i64>)
    ensures
        r == integer_field(entry_models_of(entries@), name@),
{
    match find(entries, name) {
        Slot::Found(v) => integer_of(v),
        _ => None,
    }
}

/// Reads the boolean under `name`.
fn get_bool(entries: &Vec<(CborValue, CborValue)>, name: &str) -> (r: Option<bool>)
    ensures
        r == bool_field(entry_models_of(entries@), name@),
{
    match find(entries, name) {
        Slot::Found(v) => bool_of(v),
        _ => None,
    }
}

/// The view of an optional text that may itself be unreadable.
pub open spec fn nested_text_view(t: Option<Option<String>>) -> Option<Option<Seq<char>>> {
    match t {
        Some(inner) => Some(text_view(inner)),
        None => None,
    }
}

/// Reads the optional text under `name`.
fn get_optional_text(entries: &Vec<(CborValue, CborValue)>, name: &str) -> (r: Option<
    Option<String>,
>)
    ensures
        nested_text_view(r) == optional_text_field(entry_models_of(entries@), name@),
{
    match find(entries, name) {
        Slot::Missing => Some(None),
        Slot::Found(v) => match untag(v) {
            CborValue::Null => Some(None),
            CborValue::Text(t) => Some(Some(t.clone())),
            _ => None,
        },
        Slot::Duplicate => None,
    }
}

/// Reads a certificate out of a record.
pub fn certificate_from_cbor(v: &CborValue) -> (r: Option<Certificate>)
    ensures
        certificate_option_view(r) == certificate_parse(v@),
{
    let entries = match untag(v) {
        CborValue::Dict(entries) => entries,
        _ => {
            return None;
        },
    };
    proof {
        lemma_dict_model(*entries);
    }
    if !keys_all_text(entries) {
        return None;
    }
    let version = get_integer(entries, "version");
    let serial = get_bytes(entries, "serial");
    let subject_id = get_text(entries, "subject_id");
    let subject_name = get_text(entries, "subject_name");
    let public_key = get_bytes(entries, "public_key");
    let issuer_id = get_text(entries, "issuer_id");
    let issued_at = get_integer(entries, "issued_at");
    let is_ca = get_bool(entries, "is_ca");
    let signature = get_bytes(entries, "signature");
    match (
        version,
        serial,
        subject_id,
        subject_name,
        public_key,
        issuer_id,
        issued_at,
        is_ca,
        signature,
    ) {
        (
            Some(version),
            Some(serial),
            Some(subject_id),
            Some(subject_name),
            Some(public_key),
            Some(issuer_id),
            Some(issued_at),
            Some(is_ca),
            Some(signature),
        ) => {
            if 0 <= version && version <= 255 {
                Some(
                    Certificate {
                        version: version as u8,
                        serial,
                        subject_id,
                        subject_name,
                        public_key,
                        issuer_id,
                        issued_at,
                        is_ca,
                        signature,
                    },
                )
            } else {
                None
            }
        },
        _ => None,
    }
}

/// Reads a chain out of an array of certificate records.
pub fn chain_from_cbor(v: &CborValue) -> (r: Option<Vec<Certificate>>)
    ensures
        chain_option_view(r) == chain_parse(v@),
{
    let items = match untag(v) {
        CborValue::Array(items) => items,
        _ => {
            return None;
        },
    };
    proof {
        lemma_array_model(*items);
    }
    let mut chain: Vec<Certificate> = Vec::new();
    let mut i: usize = 0;
    while i < items.len()
        invariant
            0 <= i <= items.len(),
            chain@.len() == i,
            untagged(v@) == CborModel::Array(models_of(items@)),
            forall|j: int| 0 <= j < i ==> certificate_parse(#[trigger] models_of(items@)[j]) is Some,
            forall|j: int|
                0 <= j < i ==> (#[trigger] chain@[j])@ == certificate_parse(models_of(items@)[j])->0,
        decreases items.len() - i,
    {
        match certificate_from_cbor(&items[i]) {
            Some(c) => {
                chain.push(c);
            },
            None => {
                assert(certificate_parse(models_of(items@)[i as int]) is None);
                return None;
            },
        }
        i = i + 1;
    }
    assert(chain_view(chain@) =~= chain_parse(v@)->0);
    Some(chain)
}

/// Reads a custom metadata value out of an item.
fn custom_value_from_cbor(v: &CborValue) -> (r: Option<CustomValue>)
    ensures
        match r {
            Some(value) => custom_value_parse(v@) == Some(value@),
            None => custom_value_parse(v@) is None,
        },
{
    match untag(v) {
        CborValue::Null => Some(CustomValue::Null),
        CborValue::Bool(b) => Some(CustomValue::Bool(*b)),
        CborValue::Integer(i) => Some(CustomValue::Integer(*i)),
        CborValue::Text(t) => Some(CustomValue::Text(t.clone())),
        CborValue::Bytes(b) => Some(CustomValue::Bytes(clone_bytes(b))),
        _ => None,
    }
}

/// The view of optional custom metadata.
pub open spec fn custom_view(c: Option<Vec<(String, CustomValue)>>) -> Option<
    Seq<(Seq<char>, ValueView)>,
> {
    match c {
        Some(entries) => Some(entries_view(entries@)),
        None => None,
    }
}

/// Reads custom metadata out of the entries of a map.
fn custom_from_cbor(entries: &Vec<(CborValue, CborValue)>) -> (r: Option<
    Vec<(String, CustomValue)>,
>)
    ensures
        custom_view(r) == custom_parse(entry_models_of(entries@)),
{
    let mut custom: Vec<(String, CustomValue)> = Vec::new();
    let mut i: usize = 0;
    while i < entries.len()
        invariant
            0 <= i <= entries.len(),
            custom@.len() == i,
            forall|j: int|
                0 <= j < i ==> custom_entry_parse(#[trigger] entry_models_of(entries@)[j]) is Some,
            forall|j: int|
                0 <= j < i ==> ((#[trigger] custom@[j]).0@, custom@[j].1@) == custom_entry_parse(
                    entry_models_of(entries@)[j],
                )->0,
        decreases entries.len() - i,
    {
        let key = text_of(&entries[i].0);
        let value = custom_value_from_cbor(&entries[i].1);
        match (key, value) {
            (Some(k), Some(v)) => {
                custom.push((k, v));
            },
            _ => {
                assert(custom_entry_parse(entry_models_of(entries@)[i as int]) is None);
                return None;
            },
        }
        i = i + 1;
    }
    assert(entries_view(custom@) =~= custom_parse(entry_models_of(entries@))->0);
    Some(custom)
}

/// The view of optional custom metadata that may itself be unreadable.
pub open spec fn nested_custom_view(c: Option<Option<Vec<(String, CustomValue)>>>) -> Option<
    Option<Seq<(Seq<char>, ValueView)>>,
> {
    match c {
        Some(inner) => Some(custom_view(inner)),
        None => None,
    }
}

/// Reads the optional custom metadata of a header record.
fn get_custom(entries: &Vec<(CborValue, CborValue)>) -> (r: Option<
    Option<Vec<(String, CustomValue)>>,
>)
    ensures
        nested_custom_view(r) == custom_field(entry_models_of(entries@)),
{
    match find(entries, "custom") {
        Slot::Missing => Some(None),
        Slot::Found(v) => match untag(v) {
            CborValue::Null => Some(None),
            CborValue::Dict(inner) => {
                proof {
                    lemma_dict_model(*inner);
                }
                match custom_from_cbor(inner) {
                    Some(c) => if custom_is_ordered(&c) {
                        Some(Some(c))
                    } else {
                        None
                    },
                    None => None,
                }
            },
            _ => None,
        },
        Slot::Duplicate => None,
    }
}

/// Reads a header out of a record.
pub fn header_from_cbor(v: &CborValue) -> (r: Option<Header>)
    ensures
        header_option_view(r) == header_parse(v@),
{
    let entries = match untag(v) {
        CborValue::Dict(entries) => entries,
        _ => {
            return None;
        },
    };
    proof {
        lemma_dict_model(*entries);
    }
    if !keys_all_text(entries) {
        return None;
    }
    let content_type = get_optional_text(entries, "content_type");
    let signed_at = get_integer(entries, "signed_at");
    let creator_id = get_text(entries, "creator_id");
    let original_name = get_optional_text(entries, "original_name");
    let description = get_optional_text(entries, "description");
    let custom = get_custom(entries);
    match (content_type, signed_at, creator_id, original_name, description, custom) {
        (
            Some(content_type),
            Some(signed_at),
            Some(creator_id),
            Some(original_name),
            Some(description),
            Some(custom),
        ) => Some(
            Header { content_type, signed_at, creator_id, original_name, description, custom },
        ),
        _ => None,
    }
}

/// The header that bytes decode to, or the error that reading them gives.
pub open spec fn header_decoding(bytes: Seq<u8>) -> Outcome<HeaderView> {
    match decoded(bytes) {
        Err(e) => Err(e),
        Ok(m) => match header_parse(m) {
            Some(h) => Ok(h),
            None => Err(ErrorView::CborDecode("malformed header record"@)),
        },
    }
}

/// The chain that bytes decode to, or the error that reading them gives.
pub open spec fn chain_decoding(bytes: Seq<u8>) -> Outcome<Seq<CertificateView>> {
    match decoded(bytes) {
        Err(e) => Err(e),
        Ok(m) => match chain_parse(m) {
            Some(c) => Ok(c),
            None => Err(ErrorView::CborDecode("malformed certificate chain"@)),
        },
    }
}

/// The certificate that bytes decode to, or the error that reading them gives.
pub open spec fn certificate_decoding(bytes: Seq<u8>) -> Outcome<CertificateView> {
    match decoded(bytes) {
        Err(e) => Err(e),
        Ok(m) => match certificate_parse(m) {
            Some(c) => Ok(c),
            None => Err(ErrorView::CborDecode("malformed certificate record"@)),
        },
    }
}

/// The view of a header or its error.
pub open spec fn header_result_view(
    r: Result<Header>,
) -> Outcome<HeaderView> {
    match r {
        Ok(h) => Ok(h@),
        Err(e) => Err(e@),
    }
}

/// The view of a chain or its error.
pub open spec fn chain_result_view(
    r: Result<Vec<Certificate>>,
) -> Outcome<Seq<CertificateView>> {
    match r {
        Ok(c) => Ok(chain_view(c@)),
        Err(e) => Err(e@),
    }
}

/// The view of a certificate or its error.
pub open spec fn certificate_result_view(
    r: Result<Certificate>,
) -> Outcome<CertificateView> {
    match r {
        Ok(c) => Ok(c@),
        Err(e) => Err(e@),
    }
}

/// Decodes a header from its canonical encoding.
pub fn decode_header(bytes: &[u8]) -> (r: Result<Header>)
    ensures
        header_result_view(r) == header_decoding(bytes@),
{
    match decode_value(bytes) {
        Err(e) => Err(e),
        Ok(item) => match header_from_cbor(&item) {
            Some(h) => Ok(h),
            None => Err(AletheiaError::CborDecode("malformed header record".to_owned())),
        },
    }
}

/// Decodes a chain from its canonical encoding.
pub fn decode_chain(bytes: &[u8]) -> (r: Result<Vec<Certificate>>)
    ensures
        chain_result_view(r) == chain_decoding(bytes@),
{
    match decode_value(bytes) {
        Err(e) => Err(e),
        Ok(item) => match chain_from_cbor(&item) {
            Some(c) => Ok(c),
            None => Err(AletheiaError::CborDecode("malformed certificate chain".to_owned())),
        },
    }
}

/// Decodes a certificate from its canonical encoding.
pub fn decode_certificate(bytes: &[u8]) -> (r: Result<Certificate>)
    ensures
        certificate_result_view(r) == certificate_decoding(bytes@),
{
    match decode_value(bytes) {
        Err(e) => Err(e),
        Ok(item) => match certificate_from_cbor(&item) {
            Some(c) => Ok(c),
            None => Err(AletheiaError::CborDecode("malformed certificate record".to_owned())),
        },
    }
}

/// A header that was read has custom metadata that is a map.
pub proof fn lemma_read_header_is_well_formed(bytes: Seq<u8>)
    requires
        header_decoding(bytes) is Ok,
    ensures
        header_decoding(bytes)->Ok_0.well_formed(),
{
}

} // verus!
