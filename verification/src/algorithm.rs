//! The choice of algorithm, its mark in the page header, and the two directions of the codec.
use vstd::prelude::*;

use crate::lz4;

verus! {

/// Mark in the page header of a page whose values are stored verbatim.
pub const COMPRESSION_NONE: u8 = 0x00;

/// Mark in the page header of a page whose value is an LZ4 block.
pub const COMPRESSION_LZ4: u8 = 0x01;

/// Bits of the header byte that hold the mark: the low half.
pub const COMPRESSION_MASK: u8 = 0x0F;

/// A compressed value is kept where it takes up at most three quarters of the original.
pub const MIN_RATIO_NUMERATOR: usize = 3;

/// See [`MIN_RATIO_NUMERATOR`].
pub const MIN_RATIO_DENOMINATOR: usize = 4;

/// Compression algorithm for the large values of a table.
///
/// Where compression is on, a value that does not fit a single page is compressed before it is
/// written. A value that would shrink by less than a quarter is stored verbatim.
///
/// The algorithm is recorded in the low half of byte 1 of the leaf page header. A mark that is
/// not known reads as no compression, and so does the zero of a page that was written before
/// the byte had a meaning.
#[derive(Clone, Copy, Debug, PartialEq, Eq, Structural)]
#[non_exhaustive]
pub enum CompressionAlgorithm {
    /// No compression (the default). Values are stored verbatim.
    Uncompressed,
    /// LZ4 through [`lz4_flex`](https://crates.io/crates/lz4_flex).
    ///
    /// Fastest to decompress, with a moderate ratio: the choice for workloads that mostly read.
    Lz4,
}

/// Why [`CompressionAlgorithm::try_decompress`] gave no data.
#[derive(Clone, Copy, Debug, PartialEq, Eq, Structural)]
pub enum DecompressFailure {
    /// The algorithm does not compress, so there is nothing to undo.
    Inactive,
    /// The bytes declare a length that no vector can have, or hold one further on that no vector
    /// can have or that needs more than 32 bits. A sound block holds none of the second kind.
    Oversized,
    /// The bytes are not what the algorithm produces.
    Corrupt,
}

/// Whether `compressed_len` bytes in place of `data_len` save a quarter or more.
pub open spec fn worthwhile(data_len: nat, compressed_len: nat) -> bool {
    compressed_len * MIN_RATIO_DENOMINATOR <= data_len * MIN_RATIO_NUMERATOR
}

/// Keeps `compressed` if it takes up at most three quarters of `data`.
pub fn keep_if_worthwhile(data: &[u8], compressed: Vec<u8>) -> (kept: Option<Vec<u8>>)
    ensures
        kept == (if worthwhile(data@.len(), compressed@.len()) {
            Some(compressed)
        } else {
            None
        }),
{
    if compressed.len() as u128 * MIN_RATIO_DENOMINATOR as u128 <= data.len() as u128
        * MIN_RATIO_NUMERATOR as u128 {
        Some(compressed)
    } else {
        None
    }
}

impl Default for CompressionAlgorithm {
    fn default() -> (algorithm: Self)
        ensures
            algorithm == CompressionAlgorithm::Uncompressed,
    {
        CompressionAlgorithm::Uncompressed
    }
}

impl CompressionAlgorithm {
    /// The mark of the algorithm in the page header.
    pub open spec fn flag(self) -> u8 {
        match self {
            CompressionAlgorithm::Uncompressed => COMPRESSION_NONE,
            CompressionAlgorithm::Lz4 => COMPRESSION_LZ4,
        }
    }

    /// The algorithm whose mark stands in the low half of `byte`; no compression where the mark
    /// is not known.
    pub open spec fn of_flag(byte: u8) -> Self {
        if byte % 16 == COMPRESSION_LZ4 {
            CompressionAlgorithm::Lz4
        } else {
            CompressionAlgorithm::Uncompressed
        }
    }

    /// What holds of every `compressed` that is stored in place of `data`: it is a block of
    /// `data`, and smaller by a quarter or more.
    pub open spec fn stands_for(self, data: Seq<u8>, compressed: Seq<u8>) -> bool {
        &&& self is Lz4
        &&& worthwhile(data.len(), compressed.len())
        &&& lz4::is_block_of(compressed, data)
    }

    /// Returns the mark that is written into byte 1 of the leaf page header.
    pub fn flag_byte(self) -> (byte: u8)
        ensures
            byte == self.flag(),
    {
        match self {
            CompressionAlgorithm::Uncompressed => COMPRESSION_NONE,
            CompressionAlgorithm::Lz4 => COMPRESSION_LZ4,
        }
    }

    /// Reads the algorithm off byte 1 of a leaf page header.
    ///
    /// The high half of the byte is ignored. A mark that is not known reads as no compression,
    /// so that the caller gets the raw bytes.
    pub fn from_flag_byte(byte: u8) -> (algorithm: Self)
        ensures
            algorithm == Self::of_flag(byte),
    {
        assert(byte & 0x0F == byte % 16) by (bit_vector);
        match byte & COMPRESSION_MASK {
            COMPRESSION_NONE => CompressionAlgorithm::Uncompressed,
            COMPRESSION_LZ4 => CompressionAlgorithm::Lz4,
            _ => CompressionAlgorithm::Uncompressed,
        }
    }

    /// Returns `true` if the algorithm compresses.
    pub fn is_active(self) -> (active: bool)
        ensures
            active == (self != CompressionAlgorithm::Uncompressed),
    {
        self != CompressionAlgorithm::Uncompressed
    }

    /// Compresses `data`. Returns `None` where the value is to be stored verbatim, because the
    /// algorithm does not compress or because less than a quarter would be saved.
    ///
    /// The length of `data` is part of the result, so `decompress` needs no other record of it.
    pub fn compress(self, data: &[u8]) -> (compressed: Option<Vec<u8>>)
        requires
            self is Lz4 ==> data@.len() * 110 <= usize::MAX,
        ensures
            self is Uncompressed ==> compressed is None,
            self is Lz4 ==> exists|block: Vec<u8>| #[trigger]
                lz4::may_encode_as(data, block) && compressed == (if worthwhile(
                    data@.len(),
                    block@.len(),
                ) {
                    Some(block)
                } else {
                    None
                }),
            compressed matches Some(block) ==> self.stands_for(data@, block@),
            data@.len() < lz4::MIN_MATCHABLE ==> compressed is None,
    {
        match self {
            CompressionAlgorithm::Uncompressed => None,
            CompressionAlgorithm::Lz4 => {
                let block = lz4::encode(data);
                keep_if_worthwhile(data, block)
            },
        }
    }

    /// Decompresses bytes that `compress` returned for this algorithm.
    ///
    /// Bytes that are not sound are outside the precondition; see `try_decompress` for bytes of
    /// unknown origin. What this function accepts, that one accepts too.
    pub fn decompress(self, data: &[u8]) -> (original: Vec<u8>)
        requires
            self is Lz4,
            lz4::size_addressable(data@),
            lz4::decoded(data@) is Some,
        ensures
            lz4::decoded(data@) == Some(original@),
            original@.len() <= lz4::prepended_size(data@),
            lz4::readable(data@),
    {
        lz4::decode(data).expect("lz4 decompression failed: leaf page data is corrupt")
    }

    /// Decompresses bytes of unknown origin, or says why it cannot.
    ///
    /// The bytes are decoded once to learn whether they are sound, and again for the data.
    pub fn try_decompress(self, data: &[u8]) -> (result: Result<Vec<u8>, DecompressFailure>)
        ensures
            match result {
                Ok(original) => {
                    &&& self is Lz4
                    &&& lz4::readable(data@)
                    &&& lz4::decoded(data@) == Some(original@)
                    &&& original@.len() <= lz4::prepended_size(data@)
                },
                Err(DecompressFailure::Inactive) => self is Uncompressed,
                Err(DecompressFailure::Oversized) => self is Lz4 && !lz4::readable(data@),
                Err(DecompressFailure::Corrupt) => {
                    &&& self is Lz4
                    &&& lz4::readable(data@)
                    &&& lz4::decoded(data@) is None
                },
            },
            data@.len() <= lz4::SIZE_PREFIX ==> result is Err,
    {
        match self {
            CompressionAlgorithm::Uncompressed => Err(DecompressFailure::Inactive),
            CompressionAlgorithm::Lz4 => {
                if !lz4::is_readable(data) {
                    return Err(DecompressFailure::Oversized);
                }
                match lz4::decode(data) {
                    Ok(_) => Ok(self.decompress(data)),
                    Err(_) => Err(DecompressFailure::Corrupt),
                }
            },
        }
    }
}

} // verus!
