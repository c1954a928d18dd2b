//! The data model: flags, header, certificate and envelope.

use crate::clock::unix_time_now;
use crate::codec::bytes_result_view;
use crate::compression::{decompress_payload, payload_of};
use crate::endian::{le_bytes, le_value};
use crate::error::{Outcome, Result};
use vstd::prelude::*;

verus! {

/// The eight-byte marker that opens every envelope.
pub const MAGIC_BYTES: [u8; 8] = [0x41, 0x4c, 0x45, 0x54, 0x48, 0x45, 0x49, 0x41];

/// Major format version written and accepted by this library.
pub const VERSION_MAJOR: u8 = 1;

/// Minor format version written by this library.
pub const VERSION_MINOR: u8 = 0;

/// The sixteen flag bits of an envelope.
#[derive(Debug, Clone, Copy, PartialEq, Eq, Structural)]
pub struct Flags(u16);

impl Flags {
    /// Bit 0: the payload is stored compressed.
    pub const COMPRESSED: u16 = 0x0001;

    /// The raw bits.
    pub closed spec fn bits(self) -> u16 {
        self.0
    }

    /// Whether bit 0 is set.
    pub open spec fn compressed(self) -> bool {
        self.bits() & 1 == 1
    }

    /// No flag set.
    pub fn new() -> (r: Flags)
        ensures
            r.bits() == 0,
            !r.compressed(),
    {
        assert(0u16 & 1 != 1) by (bit_vector);
        Flags(0)
    }

    /// The same flags with the compression bit set.
    pub fn with_compression(self) -> (r: Flags)
        ensures
            r.bits() == self.bits() | 1,
            r.compressed(),
    {
        let bits: u16 = self.0;
        assert((bits | 1) & 1 == 1) by (bit_vector);
        Flags(self.0 | Self::COMPRESSED)
    }

    /// Whether the payload is stored compressed; the other bits do not matter.
    pub fn is_compressed(&self) -> (r: bool)
        ensures
            r == self.compressed(),
    {
        let bits: u16 = self.0;
        assert((bits & 1 != 0) == (bits & 1 == 1)) by (bit_vector);
        self.0 & Self::COMPRESSED != 0
    }

    /// The two bytes of the flags, low byte first.
    pub fn to_bytes(&self) -> (r: [u8; 2])
        ensures
            r@ == le_bytes(self.bits() as nat, 2),
            r@ == seq![(self.bits() % 256) as u8, (self.bits() / 256) as u8],
    {
        let r = [(self.0 % 256) as u8, (self.0 / 256) as u8];
        proof {
            reveal_with_fuel(le_bytes, 3);
            assert(r@ =~= seq![(self.0 % 256) as u8, (self.0 / 256) as u8]);
            assert(r@ =~= le_bytes(self.0 as nat, 2));
        }
        r
    }

    /// The flags held by two bytes, low byte first. Every bit is kept.
    pub fn from_bytes(bytes: [u8; 2]) -> (r: Flags)
        ensures
            r.bits() == le_value(bytes@),
            r.bits() == bytes[0] + 256 * bytes[1],
    {
        proof {
            reveal_with_fuel(le_value, 3);
            assert(bytes@.drop_first().drop_first() =~= Seq::<u8>::empty());
            assert(bytes@.drop_first()[0] == bytes@[1]);
        }
        Flags(bytes[0] as u16 + 256 * (bytes[1] as u16))
    }
}

impl Default for Flags {
    fn default() -> (r: Flags)
        ensures
            r.bits() == 0,
    {
        Flags(0)
    }
}

/// A primitive value of the header's custom metadata.
#[derive(Debug, Clone)]
pub enum CustomValue {
    Null,
    Bool(bool),
    Integer(i64),
    Text(String),
    Bytes(Vec<u8>),
}

/// The mathematical content of a [`CustomValue`].
pub enum ValueView {
    Null,
    Bool(bool),
    Integer(i64),
    Text(Seq<char>),
    Bytes(Seq<u8>),
}

impl View for CustomValue {
    type V = ValueView;

    open spec fn view(&self) -> ValueView {
        match self {
            CustomValue::Null => ValueView::Null,
            CustomValue::Bool(b) => ValueView::Bool(*b),
            CustomValue::Integer(i) => ValueView::Integer(*i),
            CustomValue::Text(t) => ValueView::Text(t@),
            CustomValue::Bytes(b) => ValueView::Bytes(b@),
        }
    }
}

/// Metadata that travels with a payload and is covered by the signature.
#[derive(Debug, Clone)]
pub struct Header {
    /// MIME type of the payload.
    pub content_type: Option<String>,
    /// Unix time of signing, in seconds.
    pub signed_at: i64,
    /// Identity of the signer.
    pub creator_id: String,
    /// File name the payload came from.
    pub original_name: Option<String>,
    /// Free text about the payload.
    pub description: Option<String>,
    /// Application metadata, ordered by key.
    pub custom: Option<Vec<(String, CustomValue)>>,
}

/// The mathematical content of a [`Header`].
pub struct HeaderView {
    pub content_type: Option<Seq<char>>,
    pub signed_at: i64,
    pub creator_id: Seq<char>,
    pub original_name: Option<Seq<char>>,
    pub description: Option<Seq<char>>,
    pub custom: Option<Seq<(Seq<char>, ValueView)>>,
}

/// The view of an optional text.
pub open spec fn text_view(t: Option<String>) -> Option<Seq<char>> {
    match t {
        Some(s) => Some(s@),
        None => None,
    }
}

/// The view of a list of custom entries.
pub open spec fn entries_view(entries: Seq<(String, CustomValue)>) -> Seq<(Seq<char>, ValueView)> {
    Seq::new(entries.len(), |i: int| (entries[i].0@, entries[i].1@))
}

/// Whether one byte string comes before another in the order of a dictionary.
pub open spec fn bytes_precede(a: Seq<u8>, b: Seq<u8>) -> bool
    decreases a.len(),
{
    if b.len() == 0 {
        false
    } else if a.len() == 0 {
        true
    } else if a[0] != b[0] {
        a[0] < b[0]
    } else {
        bytes_precede(a.drop_first(), b.drop_first())
    }
}

/// Whether one text comes before another: by the bytes of their UTF-8 forms.
pub open spec fn text_precedes(a: Seq<char>, b: Seq<char>) -> bool {
    bytes_precede(vstd::utf8::encode_utf8(a), vstd::utf8::encode_utf8(b))
}

/// Whether the keys of custom metadata ascend strictly, so that no key
/// occurs twice.
pub open spec fn custom_ordered(entries: Seq<(Seq<char>, ValueView)>) -> bool {
    forall|i: int|
        0 <= i < entries.len() - 1 ==> text_precedes(#[trigger] entries[i].0, entries[i + 1].0)
}

impl HeaderView {
    /// Whether the header's custom metadata, if it has any, is a map: its
    /// keys ascend strictly.
    pub open spec fn well_formed(self) -> bool {
        match self.custom {
            Some(entries) => custom_ordered(entries),
            None => true,
        }
    }
}

/// Whether one text comes before another in the order of a dictionary.
pub fn precedes(a: &str, b: &str) -> (r: bool)
    ensures
        r == text_precedes(a@, b@),
{
    let x = a.as_bytes();
    let y = b.as_bytes();
    let mut i: usize = 0;
    assert(x@.skip(0) =~= x@);
    assert(y@.skip(0) =~= y@);
    while i < x.len() && i < y.len()
        invariant
            0 <= i <= x@.len(),
            i <= y@.len(),
            x@ == vstd::utf8::encode_utf8(a@),
            y@ == vstd::utf8::encode_utf8(b@),
            bytes_precede(x@, y@) == bytes_precede(x@.skip(i as int), y@.skip(i as int)),
        decreases x.len() - i,
    {
        proof {
            assert(x@.skip(i as int)[0] == x@[i as int]);
            assert(y@.skip(i as int)[0] == y@[i as int]);
            assert(x@.skip(i as int).drop_first() =~= x@.skip(i as int + 1));
            assert(y@.skip(i as int).drop_first() =~= y@.skip(i as int + 1));
        }
        if x[i] != y[i] {
            return x[i] < y[i];
        }
        i = i + 1;
    }
    i < y.len()
}

/// Whether the keys of custom metadata ascend strictly.
pub fn custom_is_ordered(entries: &Vec<(String, CustomValue)>) -> (r: bool)
    ensures
        r == custom_ordered(entries_view(entries@)),
{
    if entries.len() < 2 {
        return true;
    }
    let mut i: usize = 0;
    while i + 1 < entries.len()
        invariant
            0 <= i < entries.len(),
            forall|j: int|
                0 <= j < i ==> text_precedes(
                    #[trigger] entries_view(entries@)[j].0,
                    entries_view(entries@)[j + 1].0,
                ),
        decreases entries.len() - i,
    {
        if !precedes(entries[i].0.as_str(), entries[i + 1].0.as_str()) {
            assert(!text_precedes(
                entries_view(entries@)[i as int].0,
                entries_view(entries@)[i + 1].0,
            ));
            return false;
        }
        i = i + 1;
    }
    true
}

impl View for Header {
    type V = HeaderView;

    open spec fn view(&self) -> HeaderView {
        HeaderView {
            content_type: text_view(self.content_type),
            signed_at: self.signed_at,
            creator_id: self.creator_id@,
            original_name: text_view(self.original_name),
            description: text_view(self.description),
            custom: match self.custom {
                Some(entries) => Some(entries_view(entries@)),
                None => None,
            },
        }
    }
}

impl Header {
    /// A header that names its creator and signing time and nothing else.
    pub fn new_with_timestamp(creator_id: &str, signed_at: i64) -> (r: Header)
        ensures
            r@ == (HeaderView {
                content_type: None,
                signed_at,
                creator_id: creator_id@,
                original_name: None,
                description: None,
                custom: None,
            }),
    {
        Header {
            content_type: None,
            signed_at,
            creator_id: creator_id.to_owned(),
            original_name: None,
            description: None,
            custom: None,
        }
    }

    /// The same header with the payload's MIME type set.
    pub fn with_content_type(self, content_type: &str) -> (r: Header)
        ensures
            r@ == (HeaderView { content_type: Some(content_type@), ..self@ }),
    {
        let mut h = self;
        h.content_type = Some(content_type.to_owned());
        h
    }

    /// The same header with the payload's file name set.
    pub fn with_original_name(self, name: &str) -> (r: Header)
        ensures
            r@ == (HeaderView { original_name: Some(name@), ..self@ }),
    {
        let mut h = self;
        h.original_name = Some(name.to_owned());
        h
    }

    /// The same header with the description set.
    pub fn with_description(self, description: &str) -> (r: Header)
        ensures
            r@ == (HeaderView { description: Some(description@), ..self@ }),
    {
        let mut h = self;
        h.description = Some(description.to_owned());
        h
    }

    /// A header that names its creator and is signed now.
    pub fn new(creator_id: &str) -> (r: Header)
        ensures
            r@ == (HeaderView {
                content_type: None,
                signed_at: r@.signed_at,
                creator_id: creator_id@,
                original_name: None,
                description: None,
                custom: None,
            }),
    {
        Header::new_with_timestamp(creator_id, unix_time_now())
    }

    /// Whether the header's custom metadata, if it has any, is a map: its
    /// keys ascend strictly.
    pub fn is_well_formed(&self) -> (r: bool)
        ensures
            r == self@.well_formed(),
    {
        match &self.custom {
            Some(entries) => custom_is_ordered(entries),
            None => true,
        }
    }
}

/// A signed statement that binds an identity to a public key.
#[derive(Debug, Clone)]
pub struct Certificate {
    /// Format version of the certificate.
    pub version: u8,
    /// Serial number: sixteen random bytes.
    pub serial: Vec<u8>,
    /// Identity of the holder.
    pub subject_id: String,
    /// Name of the holder.
    pub subject_name: String,
    /// Public key of the holder: thirty-two bytes.
    pub public_key: Vec<u8>,
    /// Identity of the issuer.
    pub issuer_id: String,
    /// Unix time of issuance, in seconds.
    pub issued_at: i64,
    /// Whether the holder may issue certificates.
    pub is_ca: bool,
    /// Signature of the issuer over the other fields: sixty-four bytes.
    pub signature: Vec<u8>,
}

/// The mathematical content of a [`Certificate`].
pub struct CertificateView {
    pub version: u8,
    pub serial: Seq<u8>,
    pub subject_id: Seq<char>,
    pub subject_name: Seq<char>,
    pub public_key: Seq<u8>,
    pub issuer_id: Seq<char>,
    pub issued_at: i64,
    pub is_ca: bool,
    pub signature: Seq<u8>,
}

impl View for Certificate {
    type V = CertificateView;

    open spec fn view(&self) -> CertificateView {
        CertificateView {
            version: self.version,
            serial: self.serial@,
            subject_id: self.subject_id@,
            subject_name: self.subject_name@,
            public_key: self.public_key@,
            issuer_id: self.issuer_id@,
            issued_at: self.issued_at,
            is_ca: self.is_ca,
            signature: self.signature@,
        }
    }
}

/// The views of a list of certificates, in order.
pub open spec fn chain_view(chain: Seq<Certificate>) -> Seq<CertificateView> {
    Seq::new(chain.len(), |i: int| chain[i]@)
}

/// An envelope: a payload with its header, certificate chain and signature.
#[derive(Debug, Clone)]
pub struct AletheiaFile {
    pub version_major: u8,
    pub version_minor: u8,
    pub flags: Flags,
    pub header: Header,
    /// The payload as stored: compressed where the flag says so.
    pub payload: Vec<u8>,
    /// Leaf first, root last.
    pub certificate_chain: Vec<Certificate>,
    pub signature: Vec<u8>,
}

/// The mathematical content of an [`AletheiaFile`].
pub struct FileView {
    pub version_major: u8,
    pub version_minor: u8,
    pub flags: u16,
    pub header: HeaderView,
    pub payload: Seq<u8>,
    pub certificate_chain: Seq<CertificateView>,
    pub signature: Seq<u8>,
}

impl FileView {
    /// Whether the payload is stored compressed.
    pub open spec fn compressed(self) -> bool {
        self.flags & 1 == 1
    }

    /// The payload behind the stored one, or the error that expanding it gives.
    pub open spec fn original_payload(self) -> Outcome<Seq<u8>> {
        payload_of(self.payload, self.compressed())
    }
}

impl View for AletheiaFile {
    type V = FileView;

    open spec fn view(&self) -> FileView {
        FileView {
            version_major: self.version_major,
            version_minor: self.version_minor,
            flags: self.flags.bits(),
            header: self.header@,
            payload: self.payload@,
            certificate_chain: chain_view(self.certificate_chain@),
            signature: self.signature@,
        }
    }
}

impl AletheiaFile {
    /// The payload as it was signed for: the stored bytes, expanded where the
    /// compression flag is set.
    pub fn get_payload(&self) -> (r: Result<Vec<u8>>)
        ensures
            bytes_result_view(r) == self@.original_payload(),
    {
        decompress_payload(self.payload.as_slice(), self.flags.is_compressed())
    }
}

} // verus!
