//! Proofs that reading a canonical form gives back the record it was made of.

use crate::canonical::{
    certificate_encoding, certificate_model, chain_encoding, chain_model, custom_entries,
    custom_value_model, entry, header_encoding, header_entries, header_model, optional_custom_entry,
    optional_text_entry, unsigned_entries,
};
use crate::codec::{cbor_encoding, codec_round_trips, CborModel};
use crate::error::ErrorView;
use crate::reading::{
    certificate_decoding, certificate_parse, chain_decoding, chain_parse, custom_entry_parse,
    custom_field, custom_parse, custom_value_parse, header_decoding, header_parse, integer_field,
    keys_are_text, lookup, optional_text_field, text_field, untagged, Lookup,
};
use crate::types::{CertificateView, HeaderView, ValueView};
use vstd::prelude::*;

verus! {

/// What two runs of entries hold under a name when put one after the other.
pub open spec fn merge(first: Lookup, second: Lookup) -> Lookup {
    match (first, second) {
        (Lookup::Missing, _) => second,
        (_, Lookup::Missing) => first,
        _ => Lookup::Duplicate,
    }
}

/// A lookup in a concatenation merges the lookups in its two parts.
pub proof fn lemma_lookup_concat(
    a: Seq<(CborModel, CborModel)>,
    b: Seq<(CborModel, CborModel)>,
    name: Seq<char>,
)
    ensures
        lookup(a + b, name) == merge(lookup(a, name), lookup(b, name)),
    decreases b.len(),
{
    if b.len() == 0 {
        assert(a + b =~= a);
    } else {
        assert((a + b).drop_last() =~= a + b.drop_last());
        assert((a + b).last() == b.last());
        lemma_lookup_concat(a, b.drop_last(), name);
    }
}

/// A name that is the key of exactly one entry is found with that entry's value.
pub proof fn lemma_lookup_unique(entries: Seq<(CborModel, CborModel)>, name: Seq<char>, i: int)
    requires
        0 <= i < entries.len(),
        untagged(entries[i].0) == CborModel::Text(name),
        forall|j: int|
            0 <= j < entries.len() && j != i ==> untagged(#[trigger] entries[j].0)
                != CborModel::Text(name),
    ensures
        lookup(entries, name) == Lookup::Found(entries[i].1),
    decreases entries.len(),
{
    let rest = entries.drop_last();
    if i == entries.len() - 1 {
        lemma_lookup_missing(rest, name);
    } else {
        assert(rest[i] == entries[i]);
        lemma_lookup_unique(rest, name, i);
    }
}

/// A name that is no entry's key is missing.
pub proof fn lemma_lookup_missing(entries: Seq<(CborModel, CborModel)>, name: Seq<char>)
    requires
        forall|j: int|
            0 <= j < entries.len() ==> untagged(#[trigger] entries[j].0) != CborModel::Text(name),
    ensures
        lookup(entries, name) == Lookup::Missing,
    decreases entries.len(),
{
    if entries.len() > 0 {
        let rest = entries.drop_last();
        assert forall|j: int| 0 <= j < rest.len() implies untagged(#[trigger] rest[j].0)
            != CborModel::Text(name) by {
            assert(rest[j] == entries[j]);
        }
        lemma_lookup_missing(rest, name);
    }
}

/// Three marks of a name that tell the field names of a record apart.
pub open spec fn mark(name: Seq<char>) -> (nat, char, char) {
    (name.len(), name[0], name[5])
}

/// Reading the canonical form of a certificate gives the certificate back.
pub proof fn lemma_certificate_round_trip(c: CertificateView)
    ensures
        certificate_parse(certificate_model(c)) == Some(c),
{
    reveal_strlit("version");
    reveal_strlit("serial");
    reveal_strlit("subject_id");
    reveal_strlit("subject_name");
    reveal_strlit("public_key");
    reveal_strlit("issuer_id");
    reveal_strlit("issued_at");
    reveal_strlit("is_ca");
    reveal_strlit("signature");
    let entries = unsigned_entries(c).push(entry("signature"@, CborModel::Bytes(c.signature)));
    assert(certificate_model(c) == CborModel::Dict(entries));
    assert(entries.len() == 9);
    assert(entries[0].0 == CborModel::Text("version"@));
    assert(entries[1].0 == CborModel::Text("serial"@));
    assert(entries[2].0 == CborModel::Text("subject_id"@));
    assert(entries[3].0 == CborModel::Text("subject_name"@));
    assert(entries[4].0 == CborModel::Text("public_key"@));
    assert(entries[5].0 == CborModel::Text("issuer_id"@));
    assert(entries[6].0 == CborModel::Text("issued_at"@));
    assert(entries[7].0 == CborModel::Text("is_ca"@));
    assert(entries[8].0 == CborModel::Text("signature"@));
    assert(keys_are_text(entries));
    assert(mark("version"@) == (7nat, 'v', 'o'));
    assert(mark("serial"@) == (6nat, 's', 'l'));
    assert(mark("subject_id"@) == (10nat, 's', 'c'));
    assert(mark("subject_name"@).0 == 12);
    assert(mark("public_key"@) == (10nat, 'p', 'c'));
    assert(mark("issuer_id"@) == (9nat, 'i', 'r'));
    assert(mark("issued_at"@) == (9nat, 'i', 'd'));
    assert(mark("is_ca"@).0 == 5);
    assert(mark("signature"@) == (9nat, 's', 't'));
    lemma_lookup_unique(entries, "version"@, 0);
    lemma_lookup_unique(entries, "serial"@, 1);
    lemma_lookup_unique(entries, "subject_id"@, 2);
    lemma_lookup_unique(entries, "subject_name"@, 3);
    lemma_lookup_unique(entries, "public_key"@, 4);
    lemma_lookup_unique(entries, "issuer_id"@, 5);
    lemma_lookup_unique(entries, "issued_at"@, 6);
    lemma_lookup_unique(entries, "is_ca"@, 7);
    lemma_lookup_unique(entries, "signature"@, 8);
    let parsed = certificate_parse(certificate_model(c));
    assert(parsed is Some);
    assert(parsed->0.serial =~= c.serial);
}

/// Reading the canonical form of a chain gives the chain back.
pub proof fn lemma_chain_round_trip(chain: Seq<CertificateView>)
    ensures
        chain_parse(chain_model(chain)) == Some(chain),
{
    let items = chain_model(chain)->Array_0;
    assert forall|i: int| 0 <= i < items.len() implies certificate_parse(#[trigger] items[i])
        == Some(chain[i]) by {
        lemma_certificate_round_trip(chain[i]);
    }
    assert(chain_parse(chain_model(chain))->0 =~= chain);
}

/// Reading the canonical form of custom metadata gives the metadata back.
pub proof fn lemma_custom_round_trip(custom: Seq<(Seq<char>, ValueView)>)
    ensures
        custom_parse(custom_entries(custom)) == Some(custom),
{
    let entries = custom_entries(custom);
    assert forall|i: int| 0 <= i < entries.len() implies custom_entry_parse(#[trigger] entries[i])
        == Some(custom[i]) by {
        let v = custom[i].1;
        assert(custom_value_parse(custom_value_model(v)) == Some(v));
    }
    assert(custom_parse(entries)->0 =~= custom);
}

/// A lookup in a header's entries merges the lookups in its five runs.
proof fn lemma_header_lookup(h: HeaderView, name: Seq<char>)
    ensures
        lookup(header_entries(h), name) == merge(
            merge(
                merge(
                    merge(
                        lookup(optional_text_entry("content_type"@, h.content_type), name),
                        lookup(
                            seq![
                                entry("signed_at"@, CborModel::Integer(h.signed_at)),
                                entry("creator_id"@, CborModel::Text(h.creator_id)),
                            ],
                            name,
                        ),
                    ),
                    lookup(optional_text_entry("original_name"@, h.original_name), name),
                ),
                lookup(optional_text_entry("description"@, h.description), name),
            ),
            lookup(optional_custom_entry(h.custom), name),
        ),
{
    let p1 = optional_text_entry("content_type"@, h.content_type);
    let p2 = seq![
        entry("signed_at"@, CborModel::Integer(h.signed_at)),
        entry("creator_id"@, CborModel::Text(h.creator_id)),
    ];
    let p3 = optional_text_entry("original_name"@, h.original_name);
    let p4 = optional_text_entry("description"@, h.description);
    let p5 = optional_custom_entry(h.custom);
    lemma_lookup_concat(p1, p2, name);
    lemma_lookup_concat(p1 + p2, p3, name);
    lemma_lookup_concat(p1 + p2 + p3, p4, name);
    lemma_lookup_concat(p1 + p2 + p3 + p4, p5, name);
}

/// What the entry of an optional text holds under a name.
proof fn lemma_optional_entry_lookup(field: Seq<char>, value: Option<Seq<char>>, name: Seq<char>)
    ensures
        lookup(optional_text_entry(field, value), name) == (if field == name && value is Some {
            Lookup::Found(CborModel::Text(value->0))
        } else {
            Lookup::Missing
        }),
{
    reveal_with_fuel(lookup, 2);
    let part = optional_text_entry(field, value);
    if value is Some {
        assert(part.drop_last() =~= Seq::empty());
        assert(part.last() == entry(field, CborModel::Text(value->0)));
    }
}

/// Reading the canonical form of a header gives the header back.
pub proof fn lemma_header_round_trip(h: HeaderView)
    requires
        h.well_formed(),
    ensures
        header_parse(header_model(h)) == Some(h),
{
    reveal_strlit("content_type");
    reveal_strlit("signed_at");
    reveal_strlit("creator_id");
    reveal_strlit("original_name");
    reveal_strlit("description");
    reveal_strlit("custom");
    assert(mark("content_type"@).0 == 12);
    assert(mark("signed_at"@).0 == 9);
    assert(mark("creator_id"@).0 == 10);
    assert(mark("original_name"@).0 == 13);
    assert(mark("description"@).0 == 11);
    assert(mark("custom"@).0 == 6);
    let entries = header_entries(h);
    let p2 = seq![
        entry("signed_at"@, CborModel::Integer(h.signed_at)),
        entry("creator_id"@, CborModel::Text(h.creator_id)),
    ];
    let p5 = optional_custom_entry(h.custom);
    assert forall|name: Seq<char>|
        lookup(p2, name) == (if name == "signed_at"@ {
            Lookup::Found(CborModel::Integer(h.signed_at))
        } else if name == "creator_id"@ {
            Lookup::Found(CborModel::Text(h.creator_id))
        } else {
            Lookup::Missing
        }) by {
        reveal_with_fuel(lookup, 3);
        assert(p2.drop_last() =~= seq![entry("signed_at"@, CborModel::Integer(h.signed_at))]);
        assert(p2.drop_last().drop_last() =~= Seq::empty());
    }
    assert forall|name: Seq<char>|
        lookup(p5, name) == (if name == "custom"@ && h.custom is Some {
            Lookup::Found(CborModel::Dict(custom_entries(h.custom->0)))
        } else {
            Lookup::Missing
        }) by {
        reveal_with_fuel(lookup, 2);
        if h.custom is Some {
            assert(p5.drop_last() =~= Seq::empty());
        }
    }
    assert forall|name: Seq<char>|
        #![trigger lookup(entries, name)]
        lookup(entries, name) == merge(
            merge(
                merge(
                    merge(
                        lookup(optional_text_entry("content_type"@, h.content_type), name),
                        lookup(p2, name),
                    ),
                    lookup(optional_text_entry("original_name"@, h.original_name), name),
                ),
                lookup(optional_text_entry("description"@, h.description), name),
            ),
            lookup(p5, name),
        ) by {
        lemma_header_lookup(h, name);
    }
    assert forall|name: Seq<char>|
        #![trigger lookup(entries, name)]
        lookup(optional_text_entry("content_type"@, h.content_type), name) == (if "content_type"@
            == name && h.content_type is Some {
            Lookup::Found(CborModel::Text(h.content_type->0))
        } else {
            Lookup::Missing
        }) && lookup(optional_text_entry("original_name"@, h.original_name), name) == (
        if "original_name"@ == name && h.original_name is Some {
            Lookup::Found(CborModel::Text(h.original_name->0))
        } else {
            Lookup::Missing
        }) && lookup(optional_text_entry("description"@, h.description), name) == (
        if "description"@ == name && h.description is Some {
            Lookup::Found(CborModel::Text(h.description->0))
        } else {
            Lookup::Missing
        }) by {
        lemma_optional_entry_lookup("content_type"@, h.content_type, name);
        lemma_optional_entry_lookup("original_name"@, h.original_name, name);
        lemma_optional_entry_lookup("description"@, h.description, name);
    }
    assert(keys_are_text(entries));
    if h.custom is Some {
        lemma_custom_round_trip(h.custom->0);
    }
    assert(optional_text_field(entries, "content_type"@) == Some(h.content_type));
    assert(integer_field(entries, "signed_at"@) == Some(h.signed_at));
    assert(text_field(entries, "creator_id"@) == Some(h.creator_id));
    assert(optional_text_field(entries, "original_name"@) == Some(h.original_name));
    assert(optional_text_field(entries, "description"@) == Some(h.description));
    assert(custom_field(entries) == Some(h.custom));
}

/// Where the codec reads a header's encoding back, decoding it gives the header.
pub proof fn lemma_header_codec_round_trip(h: HeaderView)
    requires
        h.well_formed(),
        codec_round_trips(header_model(h)),
    ensures
        header_encoding(h) matches Ok(bytes) && header_decoding(bytes) == Ok::<
            HeaderView,
            ErrorView,
        >(h),
{
    lemma_header_round_trip(h);
}

/// Where the codec reads a chain's encoding back, decoding it gives the chain.
pub proof fn lemma_chain_codec_round_trip(chain: Seq<CertificateView>)
    requires
        codec_round_trips(chain_model(chain)),
    ensures
        chain_encoding(chain) matches Ok(bytes) && chain_decoding(bytes) == Ok::<
            Seq<CertificateView>,
            ErrorView,
        >(chain),
{
    lemma_chain_round_trip(chain);
}

/// Where the codec reads a certificate's encoding back, decoding it gives the certificate.
pub proof fn lemma_certificate_codec_round_trip(c: CertificateView)
    requires
        codec_round_trips(certificate_model(c)),
    ensures
        certificate_encoding(c) matches Ok(bytes) && certificate_decoding(bytes) == Ok::<
            CertificateView,
            ErrorView,
        >(c),
{
    lemma_certificate_round_trip(c);
}

/// Different headers have different canonical forms.
pub proof fn lemma_header_model_injective(a: HeaderView, b: HeaderView)
    requires
        a.well_formed(),
        b.well_formed(),
        header_model(a) == header_model(b),
    ensures
        a == b,
{
    lemma_header_round_trip(a);
    lemma_header_round_trip(b);
}

/// Different chains have different canonical forms.
pub proof fn lemma_chain_model_injective(a: Seq<CertificateView>, b: Seq<CertificateView>)
    requires
        chain_model(a) == chain_model(b),
    ensures
        a == b,
{
    lemma_chain_round_trip(a);
    lemma_chain_round_trip(b);
}

/// Trees that the codec reads back from their encodings have different
/// encodings where they differ.
pub proof fn lemma_encoding_injective(a: CborModel, b: CborModel)
    requires
        codec_round_trips(a),
        codec_round_trips(b),
        cbor_encoding(a) == cbor_encoding(b),
    ensures
        a == b,
{
}

} // verus!
