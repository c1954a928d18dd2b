//! The canonical record codec: CBOR items held as plain values, and the
//! calls into `ciborium` that turn them into bytes and back.

use ciborium::Value as Wire;
use crate::error::{AletheiaError, ErrorView, Outcome, Result};
use vstd::prelude::*;

verus! {

/// A CBOR data item held as plain values.
#[derive(Debug)]
pub enum CborValue {
    Null,
    Bool(bool),
    Integer(i64),
    Bytes(Vec<u8>),
    Text(String),
    Tag(u64, Box<CborValue>),
    Array(Vec<CborValue>),
    Dict(Vec<(CborValue, CborValue)>),
}

/// The mathematical content of a [`CborValue`].
pub enum CborModel {
    Null,
    Bool(bool),
    Integer(i64),
    Bytes(Seq<u8>),
    Text(Seq<char>),
    Tag(u64, Box<CborModel>),
    Array(Seq<CborModel>),
    Dict(Seq<(CborModel, CborModel)>),
}

/// The content of a value, item by item.
pub open spec fn model_of(v: CborValue) -> CborModel
    decreases v,
{
    match v {
        CborValue::Null => CborModel::Null,
        CborValue::Bool(b) => CborModel::Bool(b),
        CborValue::Integer(i) => CborModel::Integer(i),
        CborValue::Bytes(b) => CborModel::Bytes(b@),
        CborValue::Text(t) => CborModel::Text(t@),
        CborValue::Tag(t, inner) => CborModel::Tag(t, Box::new(model_of(*inner))),
        CborValue::Array(items) => CborModel::Array(
            Seq::new(
                items@.len(),
                |i: int|
                    if 0 <= i < items@.len() {
                        model_of(items@[i])
                    } else {
                        CborModel::Null
                    },
            ),
        ),
        CborValue::Dict(entries) => CborModel::Dict(
            Seq::new(
                entries@.len(),
                |i: int|
                    if 0 <= i < entries@.len() {
                        (model_of(entries@[i].0), model_of(entries@[i].1))
                    } else {
                        (CborModel::Null, CborModel::Null)
                    },
            ),
        ),
    }
}

impl View for CborValue {
    type V = CborModel;

    open spec fn view(&self) -> CborModel {
        model_of(*self)
    }
}

/// The models of a list of items, in order.
pub open spec fn models_of(items: Seq<CborValue>) -> Seq<CborModel> {
    Seq::new(items.len(), |i: int| items[i]@)
}

/// The models of a list of key and value pairs, in order.
pub open spec fn entry_models_of(entries: Seq<(CborValue, CborValue)>) -> Seq<
    (CborModel, CborModel),
> {
    Seq::new(entries.len(), |i: int| (entries[i].0@, entries[i].1@))
}

/// An array's model is the list of its items' models.
pub proof fn lemma_array_model(items: Vec<CborValue>)
    ensures
        CborValue::Array(items)@ == CborModel::Array(models_of(items@)),
{
    assert(CborValue::Array(items)@->Array_0 =~= models_of(items@));
}

/// A map's model is the list of its entries' models.
pub proof fn lemma_dict_model(entries: Vec<(CborValue, CborValue)>)
    ensures
        CborValue::Dict(entries)@ == CborModel::Dict(entry_models_of(entries@)),
{
    assert(CborValue::Dict(entries)@->Dict_0 =~= entry_models_of(entries@));
}

#[verifier::external_type_specification]
#[verifier::external_body]
pub struct ExCiboriumValue(ciborium::Value);

/// The tree that a `ciborium::Value` holds. `None` where the value holds a
/// float, an integer outside `i64`, or a variant unknown to this library.
pub uninterp spec fn wire_model(w: ciborium::Value) -> Option<CborModel>;

/// What `ciborium::into_writer` makes of a value that holds the given tree:
/// the bytes written, or the text of its error.
pub uninterp spec fn cbor_encoding(m: CborModel) -> core::result::Result<Seq<u8>, Seq<char>>;

/// What `ciborium::from_reader` makes of the given bytes: the tree of the
/// value read (`None` where [`wire_model`] has none), or the text of its error.
pub uninterp spec fn cbor_decoding(bytes: Seq<u8>) -> core::result::Result<
    Option<CborModel>,
    Seq<char>,
>;

/// The model of an item that may be absent.
pub open spec fn option_model(r: Option<CborValue>) -> Option<CborModel> {
    match r {
        Some(v) => Some(v@),
        None => None,
    }
}

/// Builds the `ciborium::Value` that holds the same tree as `v`, one variant
/// of `ciborium::Value` for each variant here.
#[verifier::external_body]
fn to_wire(v: &CborValue) -> (w: ciborium::Value)
    ensures
        wire_model(w) == Some(v@),
{
    match v {
        CborValue::Null => Wire::Null,
        CborValue::Bool(b) => Wire::Bool(*b),
        CborValue::Integer(i) => Wire::Integer((*i).into()),
        CborValue::Bytes(b) => Wire::Bytes(b.clone()),
        CborValue::Text(t) => Wire::Text(t.clone()),
        CborValue::Tag(t, inner) => Wire::Tag(*t, Box::new(to_wire(inner))),
        CborValue::Array(a) => Wire::Array(a.iter().map(to_wire).collect()),
        CborValue::Dict(d) => Wire::Map(
            d.iter().map(|e| (to_wire(&e.0), to_wire(&e.1))).collect(),
        ),
    }
}

/// Reads the tree out of a `ciborium::Value`, variant by variant. Gives
/// `None` exactly where the value has no model: at a float, at an integer
/// that `i64` cannot hold, or at a variant added to `ciborium::Value` later.
#[verifier::external_body]
fn from_wire(w: ciborium::Value) -> (r: Option<CborValue>)
    ensures
        wire_model(w) == option_model(r),
{
    Some(match w {
        Wire::Null => CborValue::Null,
        Wire::Bool(b) => CborValue::Bool(b),
        Wire::Integer(i) => CborValue::Integer(i.try_into().ok()?),
        Wire::Bytes(b) => CborValue::Bytes(b),
        Wire::Text(t) => CborValue::Text(t),
        Wire::Tag(t, inner) => CborValue::Tag(t, Box::new(from_wire(*inner)?)),
        Wire::Array(a) => CborValue::Array(Option::from_iter(a.into_iter().map(from_wire))?),
        Wire::Map(m) => CborValue::Dict(
            Option::from_iter(m.into_iter().map(|e| from_wire(e.0).zip(from_wire(e.1))))?,
        ),
        _ => return None,
    })
}

/// `ciborium::into_writer` into a fresh buffer: the bytes it wrote, or the
/// text of the error it returned. It returns an error only where the writer
/// does, which a `Vec` never does, or where a tag is no integer, which no
/// `ciborium::Value` holds: so a value that has a model is always written.
#[verifier::external_body]
fn wire_encode(w: &ciborium::Value) -> (r: core::result::Result<Vec<u8>, String>)
    ensures
        wire_model(*w) matches Some(m) ==> match r {
            Ok(bytes) => cbor_encoding(m) == Ok::<Seq<u8>, Seq<char>>(bytes@),
            Err(text) => cbor_encoding(m) == Err::<Seq<u8>, Seq<char>>(text@),
        },
        wire_model(*w) is Some ==> r is Ok,
{
    let mut out = Vec::new();
    match ciborium::into_writer(w, &mut out) {
        Ok(()) => Ok(out),
        Err(e) => Err(e.to_string()),
    }
}

/// `ciborium::from_reader` on a byte slice, reading one `ciborium::Value`:
/// that value, or the text of the error it returned.
#[verifier::external_body]
fn wire_decode(bytes: &[u8]) -> (r: core::result::Result<ciborium::Value, String>)
    ensures
        match r {
            Ok(w) => cbor_decoding(bytes@) == Ok::<Option<CborModel>, Seq<char>>(wire_model(w)),
            Err(text) => cbor_decoding(bytes@) == Err::<Option<CborModel>, Seq<char>>(text@),
        },
{
    match ciborium::from_reader::<ciborium::Value, _>(bytes) {
        Ok(w) => Ok(w),
        Err(e) => Err(e.to_string()),
    }
}

/// The canonical encoding of a tree, or the error that encoding it gives.
pub open spec fn encoded(m: CborModel) -> Outcome<Seq<u8>> {
    match cbor_encoding(m) {
        Ok(bytes) => Ok(bytes),
        Err(text) => Err(ErrorView::CborEncode(text)),
    }
}

/// The tree that bytes decode to, or the error that decoding them gives.
pub open spec fn decoded(bytes: Seq<u8>) -> Outcome<CborModel> {
    match cbor_decoding(bytes) {
        Ok(Some(m)) => Ok(m),
        Ok(None) => Err(ErrorView::CborDecode("unsupported CBOR item"@)),
        Err(text) => Err(ErrorView::CborDecode(text)),
    }
}

/// Whether the codec reads back from a tree's encoding the tree itself.
pub open spec fn codec_round_trips(m: CborModel) -> bool {
    cbor_encoding(m) matches Ok(bytes) && cbor_decoding(bytes) == Ok::<
        Option<CborModel>,
        Seq<char>,
    >(Some(m))
}

/// The view of a byte result.
pub open spec fn bytes_result_view(
    r: Result<Vec<u8>>,
) -> Outcome<Seq<u8>> {
    match r {
        Ok(b) => Ok(b@),
        Err(e) => Err(e@),
    }
}

/// The view of a decoded item or its error.
pub open spec fn value_result_view(
    r: Result<CborValue>,
) -> Outcome<CborModel> {
    match r {
        Ok(v) => Ok(v@),
        Err(e) => Err(e@),
    }
}

/// Encodes an item canonically. Every item has an encoding.
pub fn encode_value(v: &CborValue) -> (r: Result<Vec<u8>>)
    ensures
        bytes_result_view(r) == encoded(v@),
        r is Ok,
{
    let w = to_wire(v);
    match wire_encode(&w) {
        Ok(bytes) => Ok(bytes),
        Err(text) => Err(AletheiaError::CborEncode(text)),
    }
}

/// Decodes the first item that the bytes hold.
pub fn decode_value(bytes: &[u8]) -> (r: Result<CborValue>)
    ensures
        value_result_view(r) == decoded(bytes@),
{
    match wire_decode(bytes) {
        Ok(w) => match from_wire(w) {
            Some(v) => Ok(v),
            None => Err(AletheiaError::CborDecode("unsupported CBOR item".to_owned())),
        },
        Err(text) => Err(AletheiaError::CborDecode(text)),
    }
}

} // verus!
