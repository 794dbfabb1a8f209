//! What holds of the marks and of the codec as a whole.
use vstd::prelude::*;

use crate::algorithm;
use crate::algorithm::{
    CompressionAlgorithm, COMPRESSION_LZ4, COMPRESSION_MASK, COMPRESSION_NONE,
};
use crate::lz4;

verus! {

/// The mark of an algorithm lies within the mask and reads back as that algorithm, whatever the
/// other half of the byte holds.
pub proof fn flag_reads_back(algorithm: CompressionAlgorithm, high: u8)
    requires
        high & COMPRESSION_MASK == 0,
    ensures
        algorithm.flag() & COMPRESSION_MASK == algorithm.flag(),
        CompressionAlgorithm::of_flag(algorithm.flag()) == algorithm,
        CompressionAlgorithm::of_flag(algorithm.flag() | high) == algorithm,
{
    let flag = algorithm.flag();
    assert(flag & 0x0F == flag) by (bit_vector)
        requires
            flag == 0x00u8 || flag == 0x01u8,
    ;
    assert((flag | high) % 16 == flag) by (bit_vector)
        requires
            flag == 0x00u8 || flag == 0x01u8,
            high & 0x0F == 0,
    ;
}

/// No two algorithms share a mark.
pub proof fn flags_are_distinct(one: CompressionAlgorithm, other: CompressionAlgorithm)
    requires
        one.flag() == other.flag(),
    ensures
        one == other,
{
}

/// Only the bits under the mask decide how a header byte reads.
pub proof fn only_masked_bits_count(one: u8, other: u8)
    requires
        one & COMPRESSION_MASK == other & COMPRESSION_MASK,
    ensures
        CompressionAlgorithm::of_flag(one) == CompressionAlgorithm::of_flag(other),
{
    assert(one & 0x0F == one % 16) by (bit_vector);
    assert(other & 0x0F == other % 16) by (bit_vector);
}

/// A header byte without a mark, and one with a mark that is not known, read as no compression.
pub proof fn other_marks_read_as_uncompressed(byte: u8)
    requires
        byte & COMPRESSION_MASK != COMPRESSION_LZ4,
    ensures
        CompressionAlgorithm::of_flag(byte) is Uncompressed,
{
    assert(byte & 0x0F == byte % 16) by (bit_vector);
}

/// An algorithm compresses if and only if its mark is not the one for verbatim values.
pub proof fn active_flag_is_not_none(algorithm: CompressionAlgorithm)
    ensures
        algorithm != CompressionAlgorithm::Uncompressed <==> algorithm.flag() != COMPRESSION_NONE,
{
}

/// What is stored in place of a value is shorter, by at least a quarter of the value.
pub proof fn compressed_is_shorter(
    algorithm: CompressionAlgorithm,
    data: Seq<u8>,
    compressed: Seq<u8>,
)
    requires
        algorithm.stands_for(data, compressed),
    ensures
        compressed.len() < data.len(),
        4 * (data.len() - compressed.len()) >= data.len(),
{
}

/// Whatever the encoder returned, a value of fewer than `MIN_MATCHABLE` bytes is not worth
/// keeping compressed.
pub proof fn short_data_is_not_worthwhile(data: &[u8], block: Vec<u8>)
    requires
        lz4::may_encode_as(data, block),
        data@.len() < lz4::MIN_MATCHABLE,
    ensures
        !algorithm::worthwhile(data@.len(), block@.len()),
{
    lz4::encoding_is_block(data, block);
}

/// What `compress` stores in place of a value meets the precondition of `decompress`, declares
/// the length of the value, and decompresses to the value. `try_decompress` does not turn it down
/// either.
///
/// The value is one that the declared length can express and that fits a vector.
pub proof fn decompress_undoes_compress(
    algorithm: CompressionAlgorithm,
    data: Seq<u8>,
    compressed: Seq<u8>,
)
    requires
        algorithm.stands_for(data, compressed),
        data.len() <= u32::MAX,
        data.len() <= isize::MAX,
    ensures
        algorithm is Lz4,
        lz4::size_addressable(compressed),
        lz4::decoded(compressed) == Some(data),
        lz4::prepended_size(compressed) == data.len(),
        lz4::readable(compressed),
{
}

/// Different values are never stored as the same compressed bytes.
pub proof fn compress_is_injective(
    algorithm: CompressionAlgorithm,
    one: Seq<u8>,
    other: Seq<u8>,
    compressed: Seq<u8>,
)
    requires
        algorithm.stands_for(one, compressed),
        algorithm.stands_for(other, compressed),
        one.len() <= u32::MAX,
        other.len() <= u32::MAX,
    ensures
        one == other,
{
}

/// The header byte of a page, given what `compress` returned for its value and the high half of
/// the byte.
pub open spec fn header_byte(
    algorithm: CompressionAlgorithm,
    outcome: Option<Seq<u8>>,
    high: u8,
) -> u8 {
    match outcome {
        Some(_) => algorithm.flag() | high,
        None => COMPRESSION_NONE | high,
    }
}

/// The value of a page with header byte `byte` and stored bytes `stored`, or `None` where the
/// bytes are not sound.
pub open spec fn value_read(byte: u8, stored: Seq<u8>) -> Option<Seq<u8>> {
    match CompressionAlgorithm::of_flag(byte) {
        CompressionAlgorithm::Uncompressed => Some(stored),
        CompressionAlgorithm::Lz4 => lz4::decoded(stored),
    }
}

/// A value reads back from its page, whether it was stored compressed or verbatim.
pub proof fn stored_value_reads_back(
    algorithm: CompressionAlgorithm,
    data: Seq<u8>,
    outcome: Option<Seq<u8>>,
    high: u8,
)
    requires
        outcome matches Some(compressed) ==> algorithm.stands_for(data, compressed)
            && data.len() <= u32::MAX,
        high & COMPRESSION_MASK == 0,
    ensures
        value_read(
            header_byte(algorithm, outcome, high),
            match outcome {
                Some(compressed) => compressed,
                None => data,
            },
        ) == Some(data),
{
    flag_reads_back(algorithm, high);
    flag_reads_back(CompressionAlgorithm::Uncompressed, high);
}

} // verus!
