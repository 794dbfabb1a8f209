//! LZ4 blocks that start with the length of the data they hold.
//!
//! A block is four bytes that give the length of the data, lowest byte first, followed by the
//! data in the LZ4 block format. `lz4_flex` writes and reads the blocks; what is relied on about
//! it stands in this file and nowhere else. Running out of memory, which ends the program, is left
//! out of account.
use vstd::prelude::*;

verus! {

/// Number of bytes in front of a block that hold the length of the data.
pub const SIZE_PREFIX: usize = 4;

/// Inputs shorter than this hold no match that the LZ4 block format could refer to.
pub const MIN_MATCHABLE: usize = 13;

/// The value of a length field that goes on in the bytes behind it.
pub const FIELD_MAX: u8 = 15;

/// What is added to the length field of a match.
pub const MIN_MATCH: u64 = 4;

/// The length that the first four bytes of a block declare, lowest byte first.
pub open spec fn prepended_size(block: Seq<u8>) -> nat
    recommends
        block.len() >= SIZE_PREFIX,
{
    (block[0] + 0x100 * block[1] + 0x1_0000 * block[2] + 0x100_0000 * block[3]) as nat
}

/// Whether the length that `block` declares, if it declares one, is one that a vector can have.
pub open spec fn size_addressable(block: Seq<u8>) -> bool {
    block.len() >= SIZE_PREFIX ==> prepended_size(block) <= isize::MAX
}

/// Position of the first byte from `pos` on that is not `0xFF`, or the end of `block`.
pub open spec fn chain_end(block: Seq<u8>, pos: int) -> int
    decreases block.len() - pos,
{
    if 0 <= pos < block.len() && block[pos] == 0xFF {
        chain_end(block, pos + 1)
    } else {
        pos
    }
}

/// What the chain of length bytes at `pos` adds up to: a run of `0xFF` bytes and the byte behind
/// it.
pub open spec fn chain_sum(block: Seq<u8>, pos: int) -> int {
    let end = chain_end(block, pos);
    255 * (end - pos) + if end < block.len() {
        block[end] as int
    } else {
        0
    }
}

/// The length that the half-byte `field` of a token stands for, where `pos` is the position at
/// which a chain that belongs to it starts.
pub open spec fn field_length(block: Seq<u8>, pos: int, field: u8) -> int {
    if field == FIELD_MAX {
        FIELD_MAX + chain_sum(block, pos)
    } else {
        field as int
    }
}

/// Position behind the chain that belongs to `field`, or `pos` where there is none.
pub open spec fn field_end(block: Seq<u8>, pos: int, field: u8) -> int {
    if field == FIELD_MAX {
        if chain_end(block, pos) < block.len() {
            chain_end(block, pos) + 1
        } else {
            block.len() as int
        }
    } else {
        pos
    }
}

/// Whether a length can be computed: its chain, where it has one, adds up within 32 bits, and the
/// length, with `extra` added, is one that a vector can have.
pub open spec fn field_fits(block: Seq<u8>, pos: int, field: u8, extra: u64) -> bool {
    field == FIELD_MAX ==> {
        &&& chain_sum(block, pos) <= u32::MAX
        &&& extra + FIELD_MAX + chain_sum(block, pos) <= isize::MAX
    }
}

/// Whether every length in the sequences of `block` from `pos` on can be computed.
///
/// A sequence is a token, the literals whose number is in the high half of the token, two bytes
/// that say how far back a match starts, and the chain that may belong to the length of the match
/// in the low half. The last sequence ends with its literals; nothing is read behind literals
/// that leave no room for the two bytes.
pub open spec fn lengths_fit_from(block: Seq<u8>, pos: int) -> bool
    decreases block.len() - pos,
    when 0 <= pos
{
    if pos >= block.len() {
        true
    } else {
        let literal_field = block[pos] / 16;
        let match_field = block[pos] % 16;
        let literals = field_end(block, pos + 1, literal_field);
        let offset = literals + field_length(block, pos + 1, literal_field);
        proof {
            lemma_chain_end(block, pos + 1);
            lemma_chain_end(block, offset + 2);
        }
        &&& field_fits(block, pos + 1, literal_field, 0)
        &&& offset + 2 <= block.len() ==> {
            &&& field_fits(block, offset + 2, match_field, MIN_MATCH)
            &&& lengths_fit_from(block, field_end(block, offset + 2, match_field))
        }
    }
}

/// Whether every length in `block` can be computed.
pub open spec fn lengths_fit(block: Seq<u8>) -> bool {
    lengths_fit_from(block, SIZE_PREFIX as int)
}

/// Whether bytes of unknown origin can be handed to the decoder, be they a sound block or not. A
/// sound block can, wherever the length that it declares is one that a vector can have.
pub open spec fn readable(block: Seq<u8>) -> bool {
    &&& size_addressable(block)
    &&& lengths_fit(block)
}

/// A chain ends no earlier than it starts, and within the block if it starts there.
pub proof fn lemma_chain_end(block: Seq<u8>, pos: int)
    ensures
        pos <= chain_end(block, pos),
        pos <= block.len() ==> chain_end(block, pos) <= block.len(),
    decreases block.len() - pos,
{
    if 0 <= pos < block.len() && block[pos] == 0xFF {
        lemma_chain_end(block, pos + 1);
    }
}

/// What `lz4_flex::block::decompress_size_prepended` makes of `block`: the data it holds, or
/// `None` where `block` is not sound.
pub uninterp spec fn decoded(block: Seq<u8>) -> Option<Seq<u8>>;

/// The error of `lz4_flex::block::decompress_size_prepended`, of which nothing is known.
#[verifier::external_type_specification]
#[verifier::external_body]
pub struct ExBlockError(lz4_flex::block::DecompressError);

/// What holds of every block that `data` is encoded as: it declares the length of `data`, cut to
/// 32 bits; where the length fits 32 bits it decodes to `data`, and no length in it is too large;
/// data too short to contain a match stands in it as it is, behind the declared length and a
/// token that counts it; and one byte over and over is a single match.
pub open spec fn is_block_of(block: Seq<u8>, data: Seq<u8>) -> bool {
    &&& block.len() > SIZE_PREFIX
    &&& prepended_size(block) == data.len() % 0x1_0000_0000
    &&& data.len() <= u32::MAX ==> decoded(block) == Some(data) && lengths_fit(block)
    &&& data.len() < MIN_MATCHABLE ==> {
        &&& block[SIZE_PREFIX as int] == 16 * data.len()
        &&& block.skip(SIZE_PREFIX + 1) == data
    }
    &&& data.len() >= MIN_MATCHABLE && (forall|i: int|
        0 <= i < data.len() ==> #[trigger] data[i] == data[0]) ==> block.len() <= 16 + data.len() / 255
}

/// Calls `lz4_flex::block::compress_prepend_size`.
///
/// Claimed of it: the block declares the length of `data`, cut to 32 bits; where the length fits
/// 32 bits, `decompress_size_prepended` gives `data` back and no length in the block is too
/// large; fewer than thirteen bytes stand in the block as they are, behind a token that counts
/// them; and one byte over and over, which matches itself at distance one from the second byte
/// on, takes the declared length, eleven bytes, and a chain of at most one byte for every 255 of
/// data and one more. The precondition keeps the size of the output buffer, computed as
/// `data.len() * 110 / 100 + 24`, from overflowing.
///
/// Which matches the encoder finds in other data depends on the byte order and the word size of
/// the machine, which enter its hash function, and on what collides there. The bytes of the
/// block, and its length beyond what is said here, are therefore not a function of `data` alone,
/// and nothing more is claimed of them.
#[verifier::external_body]
pub(crate) fn compress_prepend_size(data: &[u8]) -> (block: Vec<u8>)
    requires
        data@.len() * 110 <= usize::MAX,
    ensures
        block@.len() > 4,
        block@[0] + 0x100 * block@[1] + 0x1_0000 * block@[2] + 0x100_0000 * block@[3]
            == data@.len() % 0x1_0000_0000,
        data@.len() <= u32::MAX ==> decoded(block@) == Some(data@),
        data@.len() <= u32::MAX ==> lengths_fit(block@),
        data@.len() < 13 ==> block@[4] == 16 * data@.len() && block@.skip(5) == data@,
        data@.len() >= 13 && (forall|i: int| 0 <= i < data@.len() ==> #[trigger] data@[i] == data@[0])
            ==> block@.len() <= 16 + data@.len() / 255,
{
    lz4_flex::block::compress_prepend_size(data)
}

/// Whether the encoder can return `block` for `data`.
pub closed spec fn may_encode_as(data: &[u8], block: Vec<u8>) -> bool {
    call_ensures(compress_prepend_size, (data,), block)
}

/// Whatever the encoder returns for `data` is a block of `data`.
pub proof fn encoding_is_block(data: &[u8], block: Vec<u8>)
    requires
        may_encode_as(data, block),
    ensures
        is_block_of(block@, data@),
{
}

/// An outcome of encoding is what `lz4_flex::block::compress_prepend_size` returned for the data,
/// and nothing else is.
pub(crate) proof fn encoding_is_what_lz4_flex_returned(data: &[u8], block: Vec<u8>)
    ensures
        may_encode_as(data, block) <==> call_ensures(compress_prepend_size, (data,), block),
{
}

/// Encodes `data`.
pub(crate) fn encode(data: &[u8]) -> (block: Vec<u8>)
    requires
        data@.len() * 110 <= usize::MAX,
    ensures
        call_ensures(compress_prepend_size, (data,), block),
        may_encode_as(data, block),
        is_block_of(block@, data@),
{
    compress_prepend_size(data)
}

/// Calls `lz4_flex::block::decompress_size_prepended`.
///
/// Claimed of it: it succeeds exactly where `decoded` has a value, and returns that value;
/// neither the data nor any length in a block that it accepts is longer than the block declares;
/// bytes that end with the declared length, or before it, are no block. It reserves the declared length at once, which has to be one that a
/// vector can have. It adds up chained length bytes in 32 bits and the lengths in `usize`, which has
/// to be kept from overflowing: a block that has a value contains no length beyond the declared
/// one, and in other bytes the lengths have to fit.
#[verifier::external_body]
pub(crate) fn decode(block: &[u8]) -> (result: Result<
    Vec<u8>,
    lz4_flex::block::DecompressError,
>)
    requires
        size_addressable(block@),
        lengths_fit(block@) || decoded(block@) is Some,
    ensures
        match result {
            Ok(data) => {
                &&& decoded(block@) == Some(data@)
                &&& data@.len() <= prepended_size(block@)
                &&& lengths_fit(block@)
            },
            Err(_) => decoded(block@) is None,
        },
        block@.len() <= SIZE_PREFIX ==> result is Err,
{
    lz4_flex::block::decompress_size_prepended(block)
}

/// The length that the first four bytes of `block` declare.
fn read_prepended_size(block: &[u8]) -> (size: u32)
    requires
        block@.len() >= SIZE_PREFIX,
    ensures
        size == prepended_size(block@),
{
    block[0] as u32 + 0x100 * (block[1] as u32) + 0x1_0000 * (block[2] as u32) + 0x100_0000 * (
    block[3] as u32)
}

/// Adds up the chain at `pos`. Returns the sum and the position behind the chain, or `None` where
/// the sum needs more than 32 bits.
fn read_chain(block: &[u8], pos: usize) -> (chain: Option<(u32, usize)>)
    requires
        pos <= block@.len(),
    ensures
        match chain {
            Some((sum, end)) => {
                &&& sum == chain_sum(block@, pos as int)
                &&& end == field_end(block@, pos as int, FIELD_MAX)
                &&& end <= block@.len()
            },
            None => chain_sum(block@, pos as int) > u32::MAX,
        },
{
    let mut sum: u32 = 0;
    let mut end: usize = pos;
    while end < block.len() && block[end] == 0xFF
        invariant
            pos <= end <= block@.len(),
            sum == 255 * (end - pos),
            chain_end(block@, pos as int) == chain_end(block@, end as int),
        decreases block@.len() - end,
    {
        proof {
            lemma_chain_end(block@, end + 1);
        }
        if sum > u32::MAX - 255 {
            return None;
        }
        sum = sum + 255;
        end = end + 1;
    }
    if end == block.len() {
        return Some((sum, end));
    }
    let last: u32 = block[end] as u32;
    if sum > u32::MAX - last {
        None
    } else {
        Some((sum + last, end + 1))
    }
}

/// Reads the length that `field` stands for. Returns it and the position behind its chain, or
/// `None` where it cannot be computed.
fn read_field(block: &[u8], pos: usize, field: u8, extra: u64) -> (length: Option<(u64, usize)>)
    requires
        pos <= block@.len(),
        field <= FIELD_MAX,
        extra <= MIN_MATCH,
    ensures
        match length {
            Some((value, end)) => {
                &&& field_fits(block@, pos as int, field, extra)
                &&& value == field_length(block@, pos as int, field)
                &&& end == field_end(block@, pos as int, field)
                &&& pos <= end <= block@.len()
            },
            None => !field_fits(block@, pos as int, field, extra),
        },
{
    if field != FIELD_MAX {
        return Some((field as u64, pos));
    }
    proof {
        lemma_chain_end(block@, pos as int);
    }
    match read_chain(block, pos) {
        None => None,
        Some((sum, end)) => {
            let value: u64 = FIELD_MAX as u64 + sum as u64;
            if extra + value > isize::MAX as u64 {
                None
            } else {
                Some((value, end))
            }
        },
    }
}

/// Follows the sequences of `block` and checks every length.
fn check_lengths(block: &[u8]) -> (fit: bool)
    ensures
        fit == lengths_fit(block@),
{
    let mut pos: usize = SIZE_PREFIX;
    while pos < block.len()
        invariant
            lengths_fit(block@) == lengths_fit_from(block@, pos as int),
        decreases block@.len() - pos,
    {
        let token: u8 = block[pos];
        let (count, literals) = match read_field(block, pos + 1, token / 16, 0) {
            Some(read) => read,
            None => return false,
        };
        let rest: usize = block.len() - literals;
        if count > rest as u64 || rest - (count as usize) < 2 {
            return true;
        }
        let chain: usize = literals + count as usize + 2;
        match read_field(block, chain, token % 16, MIN_MATCH) {
            Some((_, next)) => {
                pos = next;
            },
            None => return false,
        }
    }
    true
}

/// Whether bytes of unknown origin can be handed to the decoder.
pub fn is_readable(block: &[u8]) -> (r: bool)
    ensures
        r == readable(block@),
{
    if block.len() >= SIZE_PREFIX && read_prepended_size(block) as u64 > isize::MAX as u64 {
        return false;
    }
    check_lengths(block)
}

} // verus!
