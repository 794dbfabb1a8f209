//! What callers of the library see: laws on the results of calls, in numbers and bytes.
//!
//! `call_ensures(f, args, result)` says that `result` came out of a call of `f` with `args`, and
//! `call_requires(f, args)` that such a call is allowed.
use vstd::prelude::*;

use crate::algorithm::{keep_if_worthwhile, CompressionAlgorithm, DecompressFailure};
use crate::lengths;
use crate::lz4;

verus! {

/// Which calls are allowed: `compress` while the buffer for the result can be sized, always where
/// compression is off, and the others always, but for `decompress`.
pub proof fn calls_are_allowed(
    algorithm: CompressionAlgorithm,
    data: &[u8],
    compressed: Vec<u8>,
    byte: u8,
)
    ensures
        algorithm is Uncompressed || data@.len() * 110 <= usize::MAX ==> call_requires(
            CompressionAlgorithm::compress,
            (algorithm, data),
        ),
        call_requires(CompressionAlgorithm::try_decompress, (algorithm, data)),
        call_requires(CompressionAlgorithm::flag_byte, (algorithm,)),
        call_requires(CompressionAlgorithm::from_flag_byte, (byte,)),
        call_requires(CompressionAlgorithm::is_active, (algorithm,)),
        call_requires(keep_if_worthwhile, (data, compressed)),
        call_requires(lz4::is_readable, (data,)),
{
}

/// Compression is off by default.
pub proof fn default_is_off(algorithm: CompressionAlgorithm)
    requires
        call_ensures(<CompressionAlgorithm as Default>::default, (), algorithm),
    ensures
        algorithm is Uncompressed,
{
}

/// The marks on disk are zero for verbatim values and one for LZ4.
pub proof fn marks_on_disk(algorithm: CompressionAlgorithm, byte: u8)
    requires
        call_ensures(CompressionAlgorithm::flag_byte, (algorithm,), byte),
    ensures
        byte == 0 <==> algorithm is Uncompressed,
        byte == 1 <==> algorithm is Lz4,
{
}

/// A header byte reads as LZ4 if its low four bits are 0001, and as no compression otherwise.
pub proof fn marks_as_read(byte: u8, algorithm: CompressionAlgorithm)
    requires
        call_ensures(CompressionAlgorithm::from_flag_byte, (byte,), algorithm),
    ensures
        algorithm is Lz4 <==> byte & 0x0F == 1,
        algorithm is Uncompressed <==> byte & 0x0F != 1,
{
    assert(byte & 0x0F == byte % 16) by (bit_vector);
}

/// The mark of an algorithm reads back as that algorithm, whatever the high half of the byte.
pub proof fn mark_reads_back(
    algorithm: CompressionAlgorithm,
    mark: u8,
    high: u8,
    read: CompressionAlgorithm,
)
    requires
        call_ensures(CompressionAlgorithm::flag_byte, (algorithm,), mark),
        call_ensures(CompressionAlgorithm::from_flag_byte, (mark | (high & 0xF0),), read),
    ensures
        read == algorithm,
{
    let byte = mark | (high & 0xF0);
    assert(byte % 16 == mark) by (bit_vector)
        requires
            mark == 0u8 || mark == 1u8,
            byte == mark | (high & 0xF0),
    ;
}

/// An algorithm is active if and only if its mark is not zero.
pub proof fn active_means_marked(algorithm: CompressionAlgorithm, mark: u8, active: bool)
    requires
        call_ensures(CompressionAlgorithm::flag_byte, (algorithm,), mark),
        call_ensures(CompressionAlgorithm::is_active, (algorithm,), active),
    ensures
        active <==> mark != 0,
        active <==> algorithm is Lz4,
{
}

/// Compressed bytes are kept, unchanged, if they save a quarter of the data or more, at every
/// size of the data. They are dropped if they save less.
pub proof fn kept_if_a_quarter_is_saved(
    data: &[u8],
    compressed: Vec<u8>,
    kept: Option<Vec<u8>>,
)
    requires
        call_ensures(keep_if_worthwhile, (data, compressed), kept),
    ensures
        4 * (data@.len() - compressed@.len()) >= data@.len() ==> kept == Some(compressed),
        4 * (data@.len() - compressed@.len()) < data@.len() ==> kept is None,
{
}

/// Of two candidates for the same value, if one is kept, so is one that is no longer.
pub proof fn shorter_is_kept_too(
    data: &[u8],
    one: Vec<u8>,
    other: Vec<u8>,
    kept_one: Option<Vec<u8>>,
    kept_other: Option<Vec<u8>>,
)
    requires
        call_ensures(keep_if_worthwhile, (data, one), kept_one),
        call_ensures(keep_if_worthwhile, (data, other), kept_other),
        kept_one is Some,
        other@.len() <= one@.len(),
    ensures
        kept_other == Some(other),
{
}

/// `compress` returns the block that `lz4_flex::block::compress_prepend_size` returned for the
/// data, if that saves a quarter or more, and `None` if it does not.
pub(crate) proof fn compress_returns_what_lz4_flex_returned(
    data: &[u8],
    result: Option<Vec<u8>>,
)
    requires
        call_ensures(CompressionAlgorithm::compress, (CompressionAlgorithm::Lz4, data), result),
    ensures
        exists|block: Vec<u8>| #[trigger]
            call_ensures(lz4::compress_prepend_size, (data,), block) && {
                &&& 4 * block@.len() <= 3 * data@.len() ==> result == Some(block)
                &&& 4 * block@.len() > 3 * data@.len() ==> result is None
            },
{
    let block = choose|block: Vec<u8>| #[trigger]
        lz4::may_encode_as(data, block) && {
            &&& 4 * block@.len() <= 3 * data@.len() ==> result == Some(block)
            &&& 4 * block@.len() > 3 * data@.len() ==> result is None
        };
    lz4::encoding_is_what_lz4_flex_returned(data, block);
}

/// Whatever the encoder returns declares the length of the data in its first four bytes, lowest
/// first, decodes to the data where that length fits 32 bits, holds short data as it is, and is
/// short for one byte over and over.
pub proof fn encoder_outcomes(data: &[u8], block: Vec<u8>)
    requires
        lz4::may_encode_as(data, block),
    ensures
        block@.len() > 4,
        block@[0] + 0x100 * block@[1] + 0x1_0000 * block@[2] + 0x100_0000 * block@[3]
            == data@.len() % 0x1_0000_0000,
        data@.len() <= u32::MAX ==> lz4::decoded(block@) == Some(data@),
        data@.len() < 13 ==> block@[4] == 16 * data@.len() && block@.skip(5) == data@,
        data@.len() >= 13 && (forall|i: int|
            0 <= i < data@.len() ==> #[trigger] data@[i] == data@[0]) ==> block@.len() <= 16
            + data@.len() / 255,
{
    lz4::encoding_is_block(data, block);
}

/// Compression that is off compresses nothing, and fewer than thirteen bytes are never
/// compressed.
pub proof fn compress_declines(
    algorithm: CompressionAlgorithm,
    data: &[u8],
    result: Option<Vec<u8>>,
)
    requires
        call_ensures(CompressionAlgorithm::compress, (algorithm, data), result),
        algorithm is Uncompressed || data@.len() < 13,
    ensures
        result is None,
{
}

/// One byte over and over, twenty-two times or more, is always compressed, to a 255th of its
/// length and sixteen bytes more at the most.
pub proof fn compress_shrinks_repeated_bytes(data: &[u8], result: Option<Vec<u8>>)
    requires
        call_ensures(CompressionAlgorithm::compress, (CompressionAlgorithm::Lz4, data), result),
        data@.len() >= 22,
        forall|i: int| 0 <= i < data@.len() ==> #[trigger] data@[i] == data@[0],
    ensures
        result matches Some(compressed) && compressed@.len() <= 16 + data@.len() / 255,
{
    let block = choose|block: Vec<u8>| #[trigger]
        lz4::may_encode_as(data, block) && {
            &&& 4 * block@.len() <= 3 * data@.len() ==> result == Some(block)
            &&& 4 * block@.len() > 3 * data@.len() ==> result is None
        };
    lz4::encoding_is_block(data, block);
}

/// What `compress` returns saves a quarter or more and declares the length of the value in its
/// first four bytes, lowest first.
pub proof fn compressed_bytes(
    algorithm: CompressionAlgorithm,
    data: &[u8],
    result: Option<Vec<u8>>,
)
    requires
        call_ensures(CompressionAlgorithm::compress, (algorithm, data), result),
    ensures
        result matches Some(compressed) ==> {
            &&& algorithm is Lz4
            &&& compressed@.len() > 4
            &&& 4 * (data@.len() - compressed@.len()) >= data@.len()
            &&& compressed@.len() < data@.len()
            &&& compressed@[0] + 0x100 * compressed@[1] + 0x1_0000 * compressed@[2] + 0x100_0000
                * compressed@[3] == data@.len() % 0x1_0000_0000
        },
{
}

/// What `compress` returned may be handed to `decompress`, which gives the value back, and
/// `try_decompress` gives it back too. The value is one that a 32-bit length can express.
pub proof fn value_comes_back(
    algorithm: CompressionAlgorithm,
    data: &[u8],
    compressed: Vec<u8>,
    stored: &[u8],
)
    requires
        call_ensures(CompressionAlgorithm::compress, (algorithm, data), Some(compressed)),
        stored@ == compressed@,
        data@.len() <= u32::MAX,
        data@.len() <= isize::MAX,
    ensures
        call_requires(CompressionAlgorithm::decompress, (algorithm, stored)),
        forall|original: Vec<u8>|
            call_ensures(CompressionAlgorithm::decompress, (algorithm, stored), original)
                ==> original@ == data@,
        forall|result: Result<Vec<u8>, DecompressFailure>|
            call_ensures(CompressionAlgorithm::try_decompress, (algorithm, stored), result) ==> (
            result matches Ok(original) && original@ == data@),
{
}

/// A value reads back from a page: the reader takes the algorithm from the header byte, whose low
/// half is the mark of the algorithm where `compress` returned something and zero where it did
/// not, and decompresses what is stored if that algorithm is active.
pub proof fn page_reads_back(
    algorithm: CompressionAlgorithm,
    data: &[u8],
    outcome: Option<Vec<u8>>,
    mark: u8,
    high: u8,
    read: CompressionAlgorithm,
    active: bool,
    stored: &[u8],
)
    requires
        call_ensures(CompressionAlgorithm::compress, (algorithm, data), outcome),
        call_ensures(CompressionAlgorithm::flag_byte, (algorithm,), mark),
        call_ensures(
            CompressionAlgorithm::from_flag_byte,
            ((if outcome is Some {
                mark
            } else {
                0u8
            }) | (high & 0xF0),),
            read,
        ),
        call_ensures(CompressionAlgorithm::is_active, (read,), active),
        match outcome {
            Some(compressed) => stored@ == compressed@,
            None => stored@ == data@,
        },
        data@.len() <= u32::MAX,
        data@.len() <= isize::MAX,
    ensures
        active <==> outcome is Some,
        !active ==> stored@ == data@,
        active ==> call_requires(CompressionAlgorithm::decompress, (read, stored)),
        forall|original: Vec<u8>|
            active && call_ensures(CompressionAlgorithm::decompress, (read, stored), original)
                ==> original@ == data@,
{
    let low = if outcome is Some {
        mark
    } else {
        0u8
    };
    let byte = low | (high & 0xF0);
    assert(byte % 16 == low) by (bit_vector)
        requires
            low == 0u8 || low == 1u8,
            byte == low | (high & 0xF0),
    ;
}

/// What `decompress` returns is what the decoder of `lz4_flex` makes of the bytes, and no longer
/// than their first four declare, lowest first. `try_decompress` returns the same.
pub proof fn both_decompress_alike(
    algorithm: CompressionAlgorithm,
    data: &[u8],
    original: Vec<u8>,
    result: Result<Vec<u8>, DecompressFailure>,
)
    requires
        call_ensures(CompressionAlgorithm::decompress, (algorithm, data), original),
        call_ensures(CompressionAlgorithm::try_decompress, (algorithm, data), result),
        algorithm is Lz4,
    ensures
        lz4::decoded(data@) == Some(original@),
        original@.len() <= data@[0] + 0x100 * data@[1] + 0x1_0000 * data@[2] + 0x100_0000
            * data@[3],
        result matches Ok(other) && other@ == original@,
{
}

/// Bytes that the decoder of `lz4_flex` accepts may be handed to `decompress`, as long as the
/// length that their first four declare, lowest first, fits a vector.
pub proof fn decompress_accepts_sound_blocks(data: &[u8])
    requires
        lz4::decoded(data@) is Some,
        data@.len() >= 4 ==> data@[0] + 0x100 * data@[1] + 0x1_0000 * data@[2] + 0x100_0000
            * data@[3] <= isize::MAX,
    ensures
        call_requires(CompressionAlgorithm::decompress, (CompressionAlgorithm::Lz4, data)),
{
}

/// `try_decompress` never turns bytes down as oversized if there are at most 0x80_8080 of them
/// and the length that they declare fits a vector: it gives what the decoder of `lz4_flex` makes
/// of them, or says that they are corrupt if the decoder makes nothing of them.
pub proof fn short_bytes_are_decoded_or_corrupt(
    data: &[u8],
    result: Result<Vec<u8>, DecompressFailure>,
)
    requires
        call_ensures(
            CompressionAlgorithm::try_decompress,
            (CompressionAlgorithm::Lz4, data),
            result,
        ),
        data@.len() <= 0x80_8080,
        data@.len() >= 4 ==> data@[0] + 0x100 * data@[1] + 0x1_0000 * data@[2] + 0x100_0000
            * data@[3] <= isize::MAX,
    ensures
        match lz4::decoded(data@) {
            Some(original) => result matches Ok(bytes) && bytes@ == original,
            None => result == Err::<Vec<u8>, DecompressFailure>(DecompressFailure::Corrupt),
        },
{
    lengths::short_blocks_fit(data@);
}

/// `try_decompress` succeeds, and fails in each way, on exactly these bytes: it is inactive if
/// compression is off; else the bytes are oversized if the length that they declare does not fit
/// a vector or a length inside them does not fit; else they are corrupt if the decoder of
/// `lz4_flex` makes nothing of them; else it returns what the decoder makes of them.
pub proof fn try_decompress_outcomes(
    algorithm: CompressionAlgorithm,
    data: &[u8],
    result: Result<Vec<u8>, DecompressFailure>,
)
    requires
        call_ensures(CompressionAlgorithm::try_decompress, (algorithm, data), result),
    ensures
        ({
            let oversized = {
                ||| data@.len() >= 4 && data@[0] + 0x100 * data@[1] + 0x1_0000 * data@[2]
                    + 0x100_0000 * data@[3] > isize::MAX
                ||| !lz4::lengths_fit(data@)
            };
            if algorithm is Uncompressed {
                result == Err::<Vec<u8>, DecompressFailure>(DecompressFailure::Inactive)
            } else if oversized {
                result == Err::<Vec<u8>, DecompressFailure>(DecompressFailure::Oversized)
            } else {
                match lz4::decoded(data@) {
                    Some(original) => result matches Ok(bytes) && bytes@ == original,
                    None => result == Err::<Vec<u8>, DecompressFailure>(
                        DecompressFailure::Corrupt,
                    ),
                }
            }
        }),
        data@.len() <= 4 ==> result is Err,
{
}

/// Bytes are readable if and only if the length that their first four declare, lowest first, fits
/// a vector and the lengths inside fit; at most 0x80_8080 bytes always have lengths that fit.
pub proof fn readable_bytes(block: &[u8], result: bool)
    requires
        call_ensures(lz4::is_readable, (block,), result),
    ensures
        result <==> {
            &&& block@.len() >= 4 ==> block@[0] + 0x100 * block@[1] + 0x1_0000 * block@[2]
                + 0x100_0000 * block@[3] <= isize::MAX
            &&& lz4::lengths_fit(block@)
        },
        block@.len() < 4 ==> result,
{
    if block@.len() < 4 {
        lengths::short_blocks_fit(block@);
    }
}

} // verus!
