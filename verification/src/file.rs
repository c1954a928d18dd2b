//! The on-wire layout of an envelope: writing it, reading it, and the proof
//! that reading undoes writing.

use crate::bytes::{append_bytes, bytes_equal};
use crate::canonical::{
    chain_encoding, chain_model, encode_chain, encode_header, header_encoding, header_model,
};
use crate::codec::{bytes_result_view, codec_round_trips};
use crate::endian::{
    append_le, le_bytes, le_value, lemma_capacities, lemma_four_bytes_wrap, lemma_le_bytes_len,
    lemma_le_value_bound, lemma_le_value_of_bytes, read_le,
};
use crate::equality::same_file;
use crate::error::{AletheiaError, ErrorView, Outcome, Result};
use crate::reading::{
    chain_decoding, decode_chain, decode_header, header_decoding,
    lemma_read_header_is_well_formed,
};
use crate::roundtrip::{lemma_chain_codec_round_trip, lemma_header_codec_round_trip};
use crate::types::{AletheiaFile, CertificateView, FileView, Flags, HeaderView, MAGIC_BYTES};
use vstd::prelude::*;
use vstd::slice::{slice_subrange, slice_to_vec};

verus! {

/// The eight bytes `ALETHEIA`.
pub open spec fn magic_seq() -> Seq<u8> {
    MAGIC_BYTES@
}

/// Everything of an envelope before its signature: the marker, the version,
/// the flags, and the header, payload and chain, each behind its length.
pub open spec fn framed(
    major: u8,
    minor: u8,
    flags: u16,
    header: Seq<u8>,
    payload: Seq<u8>,
    chain: Seq<u8>,
) -> Seq<u8> {
    magic_seq() + seq![major, minor] + le_bytes(flags as nat, 2) + le_bytes(header.len(), 4)
        + header + le_bytes(payload.len(), 8) + payload + le_bytes(chain.len(), 4) + chain
}

/// The bytes of an envelope, or the error that writing it gives.
pub open spec fn envelope_bytes(f: FileView) -> Outcome<Seq<u8>> {
    match header_encoding(f.header) {
        Err(e) => Err(e),
        Ok(header) => if header.len() > u32::MAX {
            Err(ErrorView::InvalidHeader("encoded header too long"@))
        } else {
            match chain_encoding(f.certificate_chain) {
                Err(e) => Err(e),
                Ok(chain) => if chain.len() > u32::MAX {
                    Err(ErrorView::CertificateChainInvalid("encoded chain too long"@))
                } else {
                    Ok(
                        framed(
                            f.version_major,
                            f.version_minor,
                            f.flags,
                            header,
                            f.payload,
                            chain,
                        ) + f.signature,
                    )
                },
            }
        },
    }
}

/// Whether a header and a chain can be framed: the header's custom metadata
/// is a map, and the encodings of both are there and fit their four-byte
/// length fields.
pub open spec fn fits_frame(header: HeaderView, chain: Seq<CertificateView>) -> bool {
    &&& header.well_formed()
    &&& header_encoding(header) matches Ok(bytes) && bytes.len() <= u32::MAX
    &&& chain_encoding(chain) matches Ok(bytes) && bytes.len() <= u32::MAX
}

/// The `len` bytes at `pos`, where the data hold that many.
pub open spec fn section_at(data: Seq<u8>, pos: int, len: int) -> Option<Seq<u8>> {
    if 0 <= pos && 0 <= len && pos + len <= data.len() {
        Some(data.subrange(pos, pos + len))
    } else {
        None
    }
}

/// What stands before the payload of an envelope.
pub struct Prefix {
    pub major: u8,
    pub minor: u8,
    pub flags: u16,
    pub header: Seq<u8>,
    /// Where the payload's length field begins.
    pub next: int,
}

/// Reads the marker, the version, the flags and the header bytes.
pub open spec fn read_prefix(data: Seq<u8>) -> Outcome<Prefix> {
    if data.len() < 8 {
        Err(ErrorView::UnexpectedEof)
    } else if data.subrange(0, 8) != magic_seq() {
        Err(ErrorView::InvalidMagic)
    } else if data.len() < 10 {
        Err(ErrorView::UnexpectedEof)
    } else if data[8] != 1 {
        Err(ErrorView::UnsupportedVersion { major: data[8], minor: data[9] })
    } else if data.len() < 16 {
        Err(ErrorView::UnexpectedEof)
    } else {
        let len = le_value(data.subrange(12, 16)) as int;
        match section_at(data, 16, len) {
            None => Err(ErrorView::UnexpectedEof),
            Some(header) => Ok(
                Prefix {
                    major: data[8],
                    minor: data[9],
                    flags: le_value(data.subrange(10, 12)) as u16,
                    header,
                    next: 16 + len,
                },
            ),
        }
    }
}

/// What stands between the header and the signature of an envelope.
pub struct Middle {
    pub payload: Seq<u8>,
    pub chain: Seq<u8>,
    /// Where the signature begins.
    pub next: int,
}

/// Reads the payload and the chain bytes, each behind its length.
pub open spec fn read_middle(data: Seq<u8>, pos: int) -> Option<Middle> {
    match section_at(data, pos, 8) {
        None => None,
        Some(field) => {
            let payload_len = le_value(field) as int;
            match section_at(data, pos + 8, payload_len) {
                None => None,
                Some(payload) => {
                    let at = pos + 8 + payload_len;
                    match section_at(data, at, 4) {
                        None => None,
                        Some(field) => {
                            let chain_len = le_value(field) as int;
                            match section_at(data, at + 4, chain_len) {
                                None => None,
                                Some(chain) => Some(
                                    Middle { payload, chain, next: at + 4 + chain_len },
                                ),
                            }
                        },
                    }
                },
            }
        },
    }
}

/// The envelope that bytes hold, or the error that reading them gives: the
/// first fault met on the way from the marker to the signature.
pub open spec fn read_envelope(data: Seq<u8>) -> Outcome<FileView> {
    match read_prefix(data) {
        Err(e) => Err(e),
        Ok(prefix) => match header_decoding(prefix.header) {
            Err(e) => Err(e),
            Ok(header) => match read_middle(data, prefix.next) {
                None => Err(ErrorView::UnexpectedEof),
                Some(middle) => match chain_decoding(middle.chain) {
                    Err(e) => Err(e),
                    Ok(certificate_chain) => match section_at(data, middle.next, 64) {
                        None => Err(ErrorView::UnexpectedEof),
                        Some(signature) => Ok(
                            FileView {
                                version_major: prefix.major,
                                version_minor: prefix.minor,
                                flags: prefix.flags,
                                header,
                                payload: middle.payload,
                                certificate_chain,
                                signature,
                            },
                        ),
                    },
                },
            },
        },
    }
}

/// The view of an envelope or its error.
pub open spec fn file_result_view(
    r: Result<AletheiaFile>,
) -> Outcome<FileView> {
    match r {
        Ok(f) => Ok(f@),
        Err(e) => Err(e@),
    }
}

/// Writes everything of an envelope that stands before its signature. A
/// length that does not fit its field is written without its high bytes.
pub fn write_frame(
    major: u8,
    minor: u8,
    flags: &Flags,
    header: &[u8],
    payload: &[u8],
    chain: &[u8],
) -> (r: Vec<u8>)
    ensures
        r@ == framed(major, minor, flags.bits(), header@, payload@, chain@),
{
    let mut buffer: Vec<u8> = Vec::new();
    append_bytes(&mut buffer, MAGIC_BYTES.as_slice());
    buffer.push(major);
    buffer.push(minor);
    assert(buffer@ =~= magic_seq() + seq![major, minor]);
    proof {
        lemma_capacities();
        lemma_four_bytes_wrap(header@.len());
        lemma_four_bytes_wrap(chain@.len());
    }
    let flag_bytes = flags.to_bytes();
    append_bytes(&mut buffer, flag_bytes.as_slice());
    append_le(&mut buffer, header.len() as u64 % 0x1_0000_0000, 4);
    append_bytes(&mut buffer, header);
    append_le(&mut buffer, payload.len() as u64, 8);
    append_bytes(&mut buffer, payload);
    append_le(&mut buffer, chain.len() as u64 % 0x1_0000_0000, 4);
    append_bytes(&mut buffer, chain);
    buffer
}

/// Serializes an envelope.
///
/// Succeeds exactly where the header's custom metadata is a map and the
/// encodings of the header and of the chain fit their four-byte length fields.
pub fn to_bytes(file: &AletheiaFile) -> (r: Result<Vec<u8>>)
    ensures
        bytes_result_view(r) == envelope_bytes(file@),
        r is Ok <==> fits_frame(file@.header, file@.certificate_chain),
        r matches Err(e) ==> e@ is InvalidHeader || e@ is CertificateChainInvalid,
{
    let header = match encode_header(&file.header) {
        Ok(b) => b,
        Err(e) => {
            return Err(e);
        },
    };
    if header.len() > 0xffff_ffff {
        return Err(AletheiaError::InvalidHeader("encoded header too long".to_owned()));
    }
    let chain = match encode_chain(file.certificate_chain.as_slice()) {
        Ok(b) => b,
        Err(e) => {
            return Err(e);
        },
    };
    if chain.len() > 0xffff_ffff {
        return Err(AletheiaError::CertificateChainInvalid("encoded chain too long".to_owned()));
    }
    let mut buffer = write_frame(
        file.version_major,
        file.version_minor,
        &file.flags,
        header.as_slice(),
        file.payload.as_slice(),
        chain.as_slice(),
    );
    append_bytes(&mut buffer, file.signature.as_slice());
    Ok(buffer)
}

/// The bytes of an envelope that reads back as it was written, or the error
/// that writing it gives.
pub open spec fn checked_envelope_bytes(f: FileView) -> Outcome<Seq<u8>> {
    match envelope_bytes(f) {
        Err(e) => Err(e),
        Ok(bytes) => if read_envelope(bytes) == Ok::<FileView, ErrorView>(f) {
            Ok(bytes)
        } else {
            Err(ErrorView::CborEncode("envelope does not read back as written"@))
        },
    }
}

/// Serializes an envelope and hands the bytes out only if they read back as
/// the same envelope.
pub fn to_bytes_checked(file: &AletheiaFile) -> (r: Result<Vec<u8>>)
    ensures
        bytes_result_view(r) == checked_envelope_bytes(file@),
        r matches Ok(bytes) ==> read_envelope(bytes@) == Ok::<FileView, ErrorView>(file@),
{
    let bytes = match to_bytes(file) {
        Ok(b) => b,
        Err(e) => {
            return Err(e);
        },
    };
    let reads_back = match from_bytes(bytes.as_slice()) {
        Ok(back) => same_file(&back, file),
        Err(_) => false,
    };
    if reads_back {
        Ok(bytes)
    } else {
        Err(AletheiaError::CborEncode("envelope does not read back as written".to_owned()))
    }
}

/// Whether the data begin with the envelope marker.
pub fn starts_with_magic(data: &[u8]) -> (r: bool)
    ensures
        r == (data@.len() >= 8 && data@.subrange(0, 8) == magic_seq()),
{
    if data.len() < 8 {
        return false;
    }
    bytes_equal(slice_subrange(data, 0, 8), MAGIC_BYTES.as_slice())
}

/// The `len` bytes at `pos`, where the data hold that many.
fn take_section(data: &[u8], pos: usize, len: u64) -> (r: Option<&[u8]>)
    requires
        pos <= data@.len(),
    ensures
        match r {
            Some(s) => section_at(data@, pos as int, len as int) == Some(s@),
            None => section_at(data@, pos as int, len as int) is None,
        },
{
    let rest = data.len() - pos;
    if (rest as u64) < len {
        None
    } else {
        let end = pos + len as usize;
        Some(slice_subrange(data, pos, end))
    }
}

/// Deserializes an envelope.
///
/// Reads the marker, the version, the flags, the header, the payload, the
/// chain and the signature in this order, and stops at the first fault. Bytes
/// after the signature are not looked at, and every flag bit is kept.
pub fn from_bytes(data: &[u8]) -> (r: Result<AletheiaFile>)
    ensures
        file_result_view(r) == read_envelope(data@),
        data@.len() >= 8 && data@.subrange(0, 8) != magic_seq() ==> r is Err && r->Err_0@
            == ErrorView::InvalidMagic,
        r matches Ok(file) ==> file@.header.well_formed(),
{
    if data.len() < 8 {
        return Err(AletheiaError::UnexpectedEof);
    }
    if !starts_with_magic(data) {
        return Err(AletheiaError::InvalidMagic);
    }
    if data.len() < 10 {
        return Err(AletheiaError::UnexpectedEof);
    }
    let version_major = data[8];
    let version_minor = data[9];
    if version_major != 1 {
        return Err(AletheiaError::UnsupportedVersion { major: version_major, minor: version_minor });
    }
    if data.len() < 16 {
        return Err(AletheiaError::UnexpectedEof);
    }
    let flag_bytes = [data[10], data[11]];
    let flags = Flags::from_bytes(flag_bytes);
    proof {
        lemma_capacities();
        assert(flag_bytes@ =~= data@.subrange(10, 12));
        lemma_le_value_bound(data@.subrange(10, 12));
        lemma_le_value_bound(data@.subrange(12, 16));
    }
    let header_len = read_le(slice_subrange(data, 12, 16));
    let header_bytes = match take_section(data, 16, header_len) {
        Some(s) => s,
        None => {
            return Err(AletheiaError::UnexpectedEof);
        },
    };
    let header = match decode_header(header_bytes) {
        Ok(h) => h,
        Err(e) => {
            return Err(e);
        },
    };
    proof {
        lemma_read_header_is_well_formed(header_bytes@);
    }
    let mut pos: usize = 16 + header_len as usize;
    let payload_field = match take_section(data, pos, 8) {
        Some(s) => s,
        None => {
            return Err(AletheiaError::UnexpectedEof);
        },
    };
    let payload_len = read_le(payload_field);
    pos = pos + 8;
    let payload_bytes = match take_section(data, pos, payload_len) {
        Some(s) => s,
        None => {
            return Err(AletheiaError::UnexpectedEof);
        },
    };
    pos = pos + payload_len as usize;
    let chain_field = match take_section(data, pos, 4) {
        Some(s) => s,
        None => {
            return Err(AletheiaError::UnexpectedEof);
        },
    };
    let chain_len = read_le(chain_field);
    pos = pos + 4;
    let chain_bytes = match take_section(data, pos, chain_len) {
        Some(s) => s,
        None => {
            return Err(AletheiaError::UnexpectedEof);
        },
    };
    let certificate_chain = match decode_chain(chain_bytes) {
        Ok(c) => c,
        Err(e) => {
            return Err(e);
        },
    };
    pos = pos + chain_len as usize;
    let signature_bytes = match take_section(data, pos, 64) {
        Some(s) => s,
        None => {
            return Err(AletheiaError::UnexpectedEof);
        },
    };
    let payload = slice_to_vec(payload_bytes);
    let signature = slice_to_vec(signature_bytes);
    Ok(
        AletheiaFile {
            version_major,
            version_minor,
            flags,
            header,
            payload,
            certificate_chain,
            signature,
        },
    )
}

/// Whether writing the envelope gives the first bytes of `data`.
pub open spec fn written_as(f: FileView, data: Seq<u8>) -> bool {
    envelope_bytes(f) matches Ok(bytes) && bytes.len() <= data.len() && data.subrange(
        0,
        bytes.len() as int,
    ) == bytes
}

/// Deserializes an envelope and accepts it only if serializing it again
/// gives the very bytes that were read: the header and the chain must stand
/// in the data in their canonical encoding.
pub fn from_bytes_canonical(data: &[u8]) -> (r: Result<AletheiaFile>)
    ensures
        match r {
            Ok(file) => read_envelope(data@) == Ok::<FileView, ErrorView>(file@) && written_as(
                file@,
                data@,
            ),
            Err(e) => match read_envelope(data@) {
                Err(inner) => e@ == inner,
                Ok(f) => !written_as(f, data@) && e@ == ErrorView::CborDecode(
                    "encoding is not canonical"@,
                ),
            },
        },
{
    let file = match from_bytes(data) {
        Ok(f) => f,
        Err(e) => {
            return Err(e);
        },
    };
    let canonical = match to_bytes(&file) {
        Ok(bytes) => bytes.len() <= data.len() && bytes_equal(
            slice_subrange(data, 0, bytes.len()),
            bytes.as_slice(),
        ),
        Err(_) => false,
    };
    if canonical {
        Ok(file)
    } else {
        Err(AletheiaError::CborDecode("encoding is not canonical".to_owned()))
    }
}

/// The first `count` of the parts, one after the other.
pub open spec fn joined(parts: Seq<Seq<u8>>, count: int) -> Seq<u8>
    decreases count,
{
    if count <= 0 {
        Seq::empty()
    } else {
        joined(parts, count - 1) + parts[count - 1]
    }
}

/// Where the part at `index` begins among the joined parts.
pub open spec fn offset_of(parts: Seq<Seq<u8>>, index: int) -> int
    decreases index,
{
    if index <= 0 {
        0
    } else {
        offset_of(parts, index - 1) + parts[index - 1].len()
    }
}

/// The joined parts end where the next part would begin.
proof fn lemma_joined_len(parts: Seq<Seq<u8>>, count: int)
    requires
        0 <= count <= parts.len(),
    ensures
        joined(parts, count).len() == offset_of(parts, count),
    decreases count,
{
    if count > 0 {
        lemma_joined_len(parts, count - 1);
    }
}

/// Every part is the section at its offset among the joined parts.
proof fn lemma_joined_section(parts: Seq<Seq<u8>>, count: int, index: int)
    requires
        0 <= index < count <= parts.len(),
    ensures
        section_at(joined(parts, count), offset_of(parts, index), parts[index].len() as int)
            == Some(parts[index]),
    decreases count,
{
    let before = joined(parts, count - 1);
    let all = joined(parts, count);
    lemma_joined_len(parts, count - 1);
    if index == count - 1 {
        assert(all.subrange(before.len() as int, all.len() as int) =~= parts[index]);
    } else {
        lemma_joined_section(parts, count - 1, index);
        lemma_joined_len(parts, index);
        lemma_joined_len(parts, index + 1);
        let from = offset_of(parts, index);
        let to = from + parts[index].len();
        lemma_offsets_ascend(parts, index + 1, count - 1);
        assert(all.subrange(from, to) =~= before.subrange(from, to));
    }
}

/// Later parts begin later.
proof fn lemma_offsets_ascend(parts: Seq<Seq<u8>>, low: int, high: int)
    requires
        0 <= low <= high,
    ensures
        0 <= offset_of(parts, low) <= offset_of(parts, high),
    decreases high,
{
    if low < high {
        lemma_offsets_ascend(parts, low, high - 1);
    } else if low > 0 {
        lemma_offsets_ascend(parts, 0, low - 1);
    }
}

/// Whatever does not begin with the marker, and has room for one, reads as
/// `InvalidMagic`.
pub proof fn lemma_magic_gate(data: Seq<u8>)
    requires
        data.len() >= 8,
        data.subrange(0, 8) != magic_seq(),
    ensures
        read_envelope(data) == Err::<FileView, ErrorView>(ErrorView::InvalidMagic),
{
}

/// Writing is a function of the envelope's content: envelopes with the same
/// content are written as the same bytes, or fail with the same error.
pub proof fn lemma_writing_is_deterministic(a: AletheiaFile, b: AletheiaFile)
    requires
        a@ == b@,
    ensures
        envelope_bytes(a@) == envelope_bytes(b@),
{
}

/// What reading makes of the framed sections followed by `rest`: the
/// sections come back as they went in.
pub proof fn lemma_frame_round_trip(
    minor: u8,
    flags: u16,
    header: Seq<u8>,
    payload: Seq<u8>,
    chain: Seq<u8>,
    rest: Seq<u8>,
)
    requires
        header.len() <= u32::MAX,
        payload.len() <= u64::MAX,
        chain.len() <= u32::MAX,
    ensures
        ({
            let data = framed(1, minor, flags, header, payload, chain) + rest;
            let next = 16 + header.len();
            let end = next + 8 + payload.len() + 4 + chain.len();
            &&& read_prefix(data) == Ok::<Prefix, ErrorView>(
                Prefix { major: 1, minor, flags, header, next: next as int },
            )
            &&& read_middle(data, next as int) == Some(Middle { payload, chain, next: end as int })
            &&& data.len() == end + rest.len()
            &&& data.subrange(end as int, data.len() as int) == rest
        }),
{
    lemma_capacities();
    lemma_le_bytes_len(flags as nat, 2);
    lemma_le_bytes_len(header.len(), 4);
    lemma_le_bytes_len(payload.len(), 8);
    lemma_le_bytes_len(chain.len(), 4);
    lemma_le_value_of_bytes(flags as nat, 2);
    lemma_le_value_of_bytes(header.len(), 4);
    lemma_le_value_of_bytes(payload.len(), 8);
    lemma_le_value_of_bytes(chain.len(), 4);
    let data = framed(1, minor, flags, header, payload, chain) + rest;
    let parts = seq![
        magic_seq(),
        seq![1u8, minor],
        le_bytes(flags as nat, 2),
        le_bytes(header.len(), 4),
        header,
        le_bytes(payload.len(), 8),
        payload,
        le_bytes(chain.len(), 4),
        chain,
        rest,
    ];
    assert(data == joined(parts, 10)) by {
        reveal_with_fuel(joined, 11);
    }
    assert(offset_of(parts, 0) == 0 && offset_of(parts, 1) == 8 && offset_of(parts, 2) == 10
        && offset_of(parts, 3) == 12 && offset_of(parts, 4) == 16 && offset_of(parts, 5) == 16
        + header.len() && offset_of(parts, 6) == 24 + header.len() && offset_of(parts, 7) == 24
        + header.len() + payload.len() && offset_of(parts, 8) == 28 + header.len()
        + payload.len() && offset_of(parts, 9) == 28 + header.len() + payload.len()
        + chain.len()) by {
        reveal_with_fuel(offset_of, 11);
    }
    lemma_joined_len(parts, 10);
    lemma_joined_section(parts, 10, 0);
    lemma_joined_section(parts, 10, 1);
    lemma_joined_section(parts, 10, 2);
    lemma_joined_section(parts, 10, 3);
    lemma_joined_section(parts, 10, 4);
    lemma_joined_section(parts, 10, 5);
    lemma_joined_section(parts, 10, 6);
    lemma_joined_section(parts, 10, 7);
    lemma_joined_section(parts, 10, 8);
    lemma_joined_section(parts, 10, 9);
    assert(data.subrange(0, 8) == magic_seq());
    assert(data.subrange(8, 10) == seq![1u8, minor]);
    assert(data[8] == data.subrange(8, 10)[0]);
    assert(data[9] == data.subrange(8, 10)[1]);
}

/// Reading what was written gives the envelope back, wherever the codec reads
/// back what it wrote for the header and for the chain.
pub proof fn lemma_envelope_round_trip(f: FileView)
    requires
        f.version_major == 1,
        f.signature.len() == 64,
        f.payload.len() <= u64::MAX,
        f.header.well_formed(),
        codec_round_trips(header_model(f.header)),
        codec_round_trips(chain_model(f.certificate_chain)),
        header_encoding(f.header)->Ok_0.len() <= u32::MAX,
        chain_encoding(f.certificate_chain)->Ok_0.len() <= u32::MAX,
    ensures
        envelope_bytes(f) matches Ok(bytes) && read_envelope(bytes) == Ok::<FileView, ErrorView>(f),
{
    lemma_header_codec_round_trip(f.header);
    lemma_chain_codec_round_trip(f.certificate_chain);
    let header = header_encoding(f.header)->Ok_0;
    let chain = chain_encoding(f.certificate_chain)->Ok_0;
    lemma_frame_round_trip(f.version_minor, f.flags, header, f.payload, chain, f.signature);
    let data = framed(1, f.version_minor, f.flags, header, f.payload, chain) + f.signature;
    let end = 16 + header.len() + 8 + f.payload.len() + 4 + chain.len();
    assert(section_at(data, end as int, 64) == Some(f.signature));
}

} // verus!
