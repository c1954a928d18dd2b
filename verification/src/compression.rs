//! Payload compression: LZ4 blocks from `lz4_flex`, with the length of the
//! uncompressed data in front as four little-endian bytes.

use crate::codec::bytes_result_view;
use crate::endian::{le_bytes, le_value, lemma_capacities, lemma_le_value_bound, read_le};
use crate::error::{AletheiaError, ErrorView, Outcome, Result};
use vstd::prelude::*;
use vstd::slice::{slice_subrange, slice_to_vec};

verus! {

/// What `lz4_flex::compress_prepend_size` returns for the given bytes, in
/// one build of the library. `lz4_flex` picks its hash by the width of a
/// pointer and by the byte order, so a build for another kind of machine may
/// return other bytes for the same data; they expand to the same data.
pub uninterp spec fn lz4_compressed(data: Seq<u8>) -> Seq<u8>;

/// What `lz4_flex::decompress_size_prepended` makes of the given bytes: the
/// expanded bytes, or the text of its error.
pub uninterp spec fn lz4_decompressed(data: Seq<u8>) -> core::result::Result<Seq<u8>, Seq<char>>;

/// The length that a run of bytes 0xFF in a stored form has to stay under.
/// The decoder reads a long length as the sum of such bytes, in thirty-two
/// bits, and adds it to a position in the output. Under this limit the sum
/// fits, and so does the position with the length added: on a machine whose
/// addresses have sixty-four bits the sum alone decides, on a smaller one
/// the position does.
pub open spec fn run_limit() -> nat {
    if usize::MAX > u32::MAX {
        16_843_009
    } else {
        8_421_504
    }
}

/// The limit for runs of bytes 0xFF on this machine.
pub fn machine_run_limit() -> (r: usize)
    ensures
        r == run_limit(),
        r > 0,
{
    if usize::MAX as u64 > u32::MAX as u64 {
        16_843_009
    } else {
        8_421_504
    }
}

/// The length of the run of bytes 0xFF that ends before `end`.
pub open spec fn run_before(data: Seq<u8>, end: int) -> nat
    decreases end,
{
    if end <= 0 || end > data.len() || data[end - 1] != 0xff {
        0
    } else {
        1 + run_before(data, end - 1)
    }
}

/// Whether every run of bytes 0xFF is shorter than [`run_limit`].
pub open spec fn runs_are_short(data: Seq<u8>) -> bool {
    forall|end: int| 0 <= end <= data.len() ==> #[trigger] run_before(data, end) < run_limit()
}

/// The length of the uncompressed data that a stored form of four bytes or
/// more declares.
pub open spec fn declared_length(data: Seq<u8>) -> nat {
    le_value(data.subrange(0, 4))
}

/// Whether the decoder can be asked to expand a stored form: its runs of
/// bytes 0xFF are short, and the length that it declares is one that a
/// buffer can have.
pub open spec fn expandable(data: Seq<u8>) -> bool {
    &&& runs_are_short(data)
    &&& data.len() >= 4 ==> declared_length(data) <= isize::MAX
}

/// Whether the compressor can be asked to compress data of this length: it
/// sizes its buffer from the length times 110, and that product must fit a
/// machine word.
pub open spec fn fits_compressor(length: nat) -> bool {
    length <= usize::MAX / 110
}

/// `lz4_flex::compress_prepend_size`: the compressed block behind the
/// length of the data as four little-endian bytes. Where the length fits
/// those four bytes and the decoder can be asked to expand what was stored,
/// `lz4_flex::decompress_size_prepended` gives the data back. The compressor
/// multiplies the length by 110 to size its buffer, so it is asked only
/// where that product fits.
#[verifier::external_body]
fn lz4_compress(data: &[u8]) -> (r: Vec<u8>)
    requires
        fits_compressor(data@.len()),
    ensures
        r@ == lz4_compressed(data@),
        r@.len() >= 4,
        r@.subrange(0, 4) == le_bytes(data@.len(), 4),
        data@.len() <= u32::MAX && expandable(r@) ==> lz4_decompressed(r@) is Ok
            && lz4_decompressed(r@)->Ok_0 == data@,
{
    lz4_flex::compress_prepend_size(data)
}

/// `lz4_flex::decompress_size_prepended`: the expanded bytes, or the text of
/// the error. The decoder adds up the bytes of a long length without a
/// check, and makes a zeroed buffer of the declared length before it reads
/// on: so it is asked only where the runs of bytes 0xFF are short and the
/// declared length is one that a buffer can have. On such bytes every index
/// and every sum in the decoder stays in range, and it returns.
#[verifier::external_body]
fn lz4_decompress(data: &[u8]) -> (r: core::result::Result<Vec<u8>, String>)
    requires
        expandable(data@),
    ensures
        match r {
            Ok(bytes) => lz4_decompressed(data@) == Ok::<Seq<u8>, Seq<char>>(bytes@),
            Err(text) => lz4_decompressed(data@) == Err::<Seq<u8>, Seq<char>>(text@),
        },
{
    match lz4_flex::decompress_size_prepended(data) {
        Ok(bytes) => Ok(bytes),
        Err(e) => Err(e.to_string()),
    }
}

/// Whether every run of bytes 0xFF in the data is shorter than [`run_limit`].
pub fn has_short_runs(data: &[u8]) -> (r: bool)
    ensures
        r == runs_are_short(data@),
{
    let limit = machine_run_limit();
    let mut run: usize = 0;
    let mut i: usize = 0;
    while i < data.len()
        invariant
            0 <= i <= data.len(),
            limit == run_limit(),
            run == run_before(data@, i as int),
            run < limit,
            forall|end: int| 0 <= end <= i ==> #[trigger] run_before(data@, end) < run_limit(),
        decreases data.len() - i,
    {
        if data[i] == 0xff {
            run = run + 1;
        } else {
            run = 0;
        }
        i = i + 1;
        assert(run == run_before(data@, i as int));
        if run >= limit {
            return false;
        }
    }
    true
}

/// Whether the decoder can be asked to expand a stored form.
pub fn can_expand(data: &[u8]) -> (r: bool)
    ensures
        r == expandable(data@),
{
    if !has_short_runs(data) {
        return false;
    }
    if data.len() < 4 {
        return true;
    }
    proof {
        lemma_capacities();
        lemma_le_value_bound(data@.subrange(0, 4));
    }
    let declared = read_le(slice_subrange(data, 0, 4));
    declared <= isize::MAX as u64
}

/// The payload that a compressed stored form expands to, or the error: a
/// stored form that the decoder cannot be asked to expand is refused.
pub open spec fn expanded(data: Seq<u8>) -> Outcome<Seq<u8>> {
    if !expandable(data) {
        Err(ErrorView::Decompression("stored payload is not safe to expand"@))
    } else {
        match lz4_decompressed(data) {
            Ok(bytes) => Ok(bytes),
            Err(text) => Err(ErrorView::Decompression(text)),
        }
    }
}

/// The payload behind a stored form: the stored bytes themselves where they
/// are not compressed.
pub open spec fn payload_of(stored: Seq<u8>, is_compressed: bool) -> Outcome<Seq<u8>> {
    if is_compressed {
        expanded(stored)
    } else {
        Ok(stored)
    }
}

/// Whether a payload has a compressed stored form: the compressor can be
/// asked to compress it, and the decoder to expand what it made.
pub open spec fn compressible(payload: Seq<u8>) -> bool {
    fits_compressor(payload.len()) && expandable(lz4_compressed(payload))
}

/// The stored form of a payload under compression, or the error: a payload
/// that the compressor cannot be asked to compress is refused, and a stored
/// form that could not be expanded again is not made.
pub open spec fn compressed(payload: Seq<u8>) -> Outcome<Seq<u8>> {
    if !fits_compressor(payload.len()) {
        Err(ErrorView::Compression("payload is too long to compress"@))
    } else if !expandable(lz4_compressed(payload)) {
        Err(ErrorView::Compression("compressed payload is not safe to expand"@))
    } else {
        Ok(lz4_compressed(payload))
    }
}

/// Compresses a payload into its stored form: the compressed block behind
/// the payload's length as four little-endian bytes. Succeeds exactly where
/// the compressor can be asked to compress the payload and the decoder to
/// expand the stored form again. A payload shorter than four gibibytes is
/// what expanding the stored form gives.
pub fn compress_payload(payload: &[u8]) -> (r: Result<Vec<u8>>)
    ensures
        bytes_result_view(r) == compressed(payload@),
        r is Ok <==> compressible(payload@),
        r matches Err(e) ==> e@ is Compression,
        r matches Ok(stored) ==> stored@.len() >= 4 && stored@.subrange(0, 4) == le_bytes(
            payload@.len(),
            4,
        ),
        r matches Ok(stored) ==> payload@.len() <= u32::MAX ==> expanded(stored@) == Ok::<
            Seq<u8>,
            ErrorView,
        >(payload@),
{
    if payload.len() > usize::MAX / 110 {
        return Err(AletheiaError::Compression("payload is too long to compress".to_owned()));
    }
    let stored = lz4_compress(payload);
    if can_expand(stored.as_slice()) {
        Ok(stored)
    } else {
        Err(AletheiaError::Compression("compressed payload is not safe to expand".to_owned()))
    }
}

/// Gives the payload behind a stored form, expanding it where it is
/// compressed. A compressed form that the decoder cannot be asked to expand
/// is refused.
pub fn decompress_payload(payload: &[u8], is_compressed: bool) -> (r: Result<Vec<u8>>)
    ensures
        bytes_result_view(r) == payload_of(payload@, is_compressed),
{
    if !is_compressed {
        return Ok(slice_to_vec(payload));
    }
    if !can_expand(payload) {
        return Err(
            AletheiaError::Decompression("stored payload is not safe to expand".to_owned()),
        );
    }
    match lz4_decompress(payload) {
        Ok(bytes) => Ok(bytes),
        Err(text) => Err(AletheiaError::Decompression(text)),
    }
}

} // verus!
