//! What `lengths_fit` says of a block, put together from its parts.
//!
//! A block is a four-byte prefix and sequences. The laws below take the first sequence apart in
//! every way in which bytes can start: whole, with a match behind the literals; cut off in or
//! right behind the literals; cut off in the chain of the literals; cut off in the chain of the
//! match. In each they say, in numbers, which lengths are too large. Between them they decide
//! every sequence of bytes.
use vstd::prelude::*;

use crate::lz4;

verus! {

/// A run of `0xFF` bytes that is followed by another byte, or by none, is a chain.
proof fn lemma_run_is_chain(block: Seq<u8>, pos: int, run: int)
    requires
        0 <= pos,
        0 <= run,
        pos + run <= block.len(),
        forall|i: int| pos <= i < pos + run ==> block[i] == 0xFF,
        pos + run < block.len() ==> block[pos + run] != 0xFF,
    ensures
        lz4::chain_end(block, pos) == pos + run,
    decreases run,
{
    if run > 0 {
        lemma_run_is_chain(block, pos + 1, run - 1);
    }
}

/// Whether two sequences go on in the same way from two positions.
spec fn same_from(one: Seq<u8>, i: int, other: Seq<u8>, j: int) -> bool {
    &&& 0 <= i
    &&& 0 <= j
    &&& one.len() - i == other.len() - j
    &&& forall|k: int| #![trigger one[k]] i <= k < one.len() ==> one[k] == other[k - i + j]
}

proof fn lemma_same_chain(one: Seq<u8>, i: int, other: Seq<u8>, j: int)
    requires
        same_from(one, i, other, j),
    ensures
        lz4::chain_end(one, i) - i == lz4::chain_end(other, j) - j,
        lz4::chain_sum(one, i) == lz4::chain_sum(other, j),
        i <= lz4::chain_end(one, i),
        i <= one.len() ==> lz4::chain_end(one, i) <= one.len(),
    decreases one.len() - i,
{
    lz4::lemma_chain_end(one, i);
    if i < one.len() && one[i] == 0xFF {
        assert(other[j] == one[i]);
        lemma_same_chain(one, i + 1, other, j + 1);
    } else if i < one.len() {
        assert(other[j] == one[i]);
    }
    let end = lz4::chain_end(one, i);
    if end < one.len() {
        assert(one[end] == other[end - i + j]);
    }
}

/// Only the bytes from a position on decide whether the lengths from there on fit.
proof fn lemma_same_lengths(one: Seq<u8>, i: int, other: Seq<u8>, j: int)
    requires
        same_from(one, i, other, j),
    ensures
        lz4::lengths_fit_from(one, i) == lz4::lengths_fit_from(other, j),
    decreases one.len() - i,
{
    if i < one.len() {
        let token = one[i];
        assert(other[j] == token);
        lemma_same_chain(one, i + 1, other, j + 1);
        let at = lz4::field_end(one, i + 1, token / 16) + lz4::field_length(one, i + 1, token / 16);
        let other_at = lz4::field_end(other, j + 1, token / 16) + lz4::field_length(
            other,
            j + 1,
            token / 16,
        );
        assert(at - i == other_at - j);
        if at + 2 <= one.len() {
            lemma_same_chain(one, at + 2, other, other_at + 2);
            lemma_same_lengths(
                one,
                lz4::field_end(one, at + 2, token % 16),
                other,
                lz4::field_end(other, other_at + 2, token % 16),
            );
        }
    }
}

/// The four bytes in front have no part in it.
pub proof fn prefix_does_not_matter(one: Seq<u8>, other: Seq<u8>, sequences: Seq<u8>)
    requires
        one.len() == 4,
        other.len() == 4,
    ensures
        lz4::lengths_fit(one + sequences) == lz4::lengths_fit(other + sequences),
{
    lemma_same_lengths(one + sequences, 4, other + sequences, 4);
}

/// Bytes with nothing behind the prefix have no length that could be too large.
pub proof fn nothing_behind_the_prefix_fits(block: Seq<u8>)
    requires
        block.len() <= 4,
    ensures
        lz4::lengths_fit(block),
{
}

/// A whole first sequence: a token, the chain of its literals if the high half is fifteen, the
/// literals, two bytes of offset, and the chain of its match if the low half is fifteen. The
/// lengths fit if and only if the two chains add up within 32 bits, the literals and the match
/// fit a vector, and the lengths behind the sequence fit.
pub proof fn whole_sequence(
    prefix: Seq<u8>,
    token: u8,
    literal_chain: Seq<u8>,
    literals: Seq<u8>,
    offset: Seq<u8>,
    match_chain: Seq<u8>,
    rest: Seq<u8>,
)
    requires
        prefix.len() == 4,
        token / 16 < 15 ==> literal_chain.len() == 0 && literals.len() == token / 16,
        token / 16 == 15 ==> {
            &&& literal_chain.len() > 0
            &&& forall|i: int| 0 <= i < literal_chain.len() - 1 ==> literal_chain[i] == 0xFF
            &&& literal_chain.last() != 0xFF
            &&& literals.len() == 15 + 255 * (literal_chain.len() - 1) + literal_chain.last()
        },
        offset.len() == 2,
        token % 16 < 15 ==> match_chain.len() == 0,
        token % 16 == 15 ==> {
            &&& match_chain.len() > 0
            &&& forall|i: int| 0 <= i < match_chain.len() - 1 ==> match_chain[i] == 0xFF
            &&& match_chain.last() != 0xFF
        },
    ensures
        lz4::lengths_fit(
            prefix + seq![token] + literal_chain + literals + offset + match_chain + rest,
        ) <==> {
            &&& token / 16 == 15 ==> {
                &&& 255 * (literal_chain.len() - 1) + literal_chain.last() <= u32::MAX
                &&& literals.len() <= isize::MAX
            }
            &&& token % 16 == 15 ==> {
                &&& 255 * (match_chain.len() - 1) + match_chain.last() <= u32::MAX
                &&& 19 + 255 * (match_chain.len() - 1) + match_chain.last() <= isize::MAX
            }
            &&& lz4::lengths_fit(prefix + rest)
        },
{
    let block = prefix + seq![token] + literal_chain + literals + offset + match_chain + rest;
    let at: int = 5 + literal_chain.len() as int + literals.len();
    let next: int = at + 2 + match_chain.len();
    assert(block[4] == token);
    assert(forall|i: int| #![trigger literal_chain[i]]
        0 <= i < literal_chain.len() ==> block[5 + i] == literal_chain[i]);
    assert(forall|i: int| #![trigger match_chain[i]]
        0 <= i < match_chain.len() ==> block[at + 2 + i] == match_chain[i]);
    if token / 16 == 15 {
        let run = literal_chain.len() - 1;
        assert forall|i: int| 5 <= i < 5 + run implies block[i] == 0xFF by {
            assert(block[5 + (i - 5)] == literal_chain[i - 5]);
        }
        assert(block[5 + run] == literal_chain[run]);
        lemma_run_is_chain(block, 5, run);
    }
    if token % 16 == 15 {
        let run = match_chain.len() - 1;
        assert forall|i: int| at + 2 <= i < at + 2 + run implies block[i] == 0xFF by {
            assert(block[at + 2 + (i - at - 2)] == match_chain[i - at - 2]);
        }
        assert(block[at + 2 + run] == match_chain[run]);
        lemma_run_is_chain(block, at + 2, run);
    }
    assert(lz4::field_end(block, 5, token / 16) + lz4::field_length(block, 5, token / 16) == at);
    assert(lz4::field_end(block, at + 2, token % 16) == next);
    assert(same_from(block, next, prefix + rest, 4));
    lemma_same_lengths(block, next, prefix + rest, 4);
}

/// A first sequence that ends in its literals or so soon behind them that no offset fits: nothing
/// is read but the token and the chain of the literals, of which there are `count`.
pub proof fn sequence_without_match(
    prefix: Seq<u8>,
    token: u8,
    literal_chain: Seq<u8>,
    tail: Seq<u8>,
    count: int,
)
    requires
        prefix.len() == 4,
        token / 16 < 15 ==> literal_chain.len() == 0 && count == token / 16,
        token / 16 == 15 ==> {
            &&& literal_chain.len() > 0
            &&& forall|i: int| 0 <= i < literal_chain.len() - 1 ==> literal_chain[i] == 0xFF
            &&& literal_chain.last() != 0xFF
            &&& count == 15 + 255 * (literal_chain.len() - 1) + literal_chain.last()
        },
        tail.len() < count + 2,
    ensures
        lz4::lengths_fit(prefix + seq![token] + literal_chain + tail) <==> (token / 16 == 15 ==> {
            &&& count - 15 <= u32::MAX
            &&& count <= isize::MAX
        }),
{
    let block = prefix + seq![token] + literal_chain + tail;
    assert(block[4] == token);
    if token / 16 == 15 {
        let run = literal_chain.len() - 1;
        assert forall|i: int| 5 <= i < 5 + run implies block[i] == 0xFF by {
            assert(block[i] == literal_chain[i - 5]);
        }
        assert(block[5 + run] == literal_chain[run]);
        lemma_run_is_chain(block, 5, run);
    }
}

/// A first sequence that is cut off in the chain of its literals.
pub proof fn sequence_cut_in_literal_chain(prefix: Seq<u8>, token: u8, chain: Seq<u8>)
    requires
        prefix.len() == 4,
        token / 16 == 15,
        forall|i: int| 0 <= i < chain.len() ==> chain[i] == 0xFF,
    ensures
        lz4::lengths_fit(prefix + seq![token] + chain) <==> {
            &&& 255 * chain.len() <= u32::MAX
            &&& 15 + 255 * chain.len() <= isize::MAX
        },
{
    let block = prefix + seq![token] + chain;
    assert(block[4] == token);
    assert forall|i: int| 5 <= i < 5 + chain.len() implies block[i] == 0xFF by {
        assert(block[i] == chain[i - 5]);
    }
    lemma_run_is_chain(block, 5, chain.len() as int);
}

/// A first sequence that is cut off in the chain of its match.
pub proof fn sequence_cut_in_match_chain(
    prefix: Seq<u8>,
    token: u8,
    literal_chain: Seq<u8>,
    literals: Seq<u8>,
    offset: Seq<u8>,
    chain: Seq<u8>,
)
    requires
        prefix.len() == 4,
        token / 16 < 15 ==> literal_chain.len() == 0 && literals.len() == token / 16,
        token / 16 == 15 ==> {
            &&& literal_chain.len() > 0
            &&& forall|i: int| 0 <= i < literal_chain.len() - 1 ==> literal_chain[i] == 0xFF
            &&& literal_chain.last() != 0xFF
            &&& literals.len() == 15 + 255 * (literal_chain.len() - 1) + literal_chain.last()
        },
        offset.len() == 2,
        token % 16 == 15,
        forall|i: int| 0 <= i < chain.len() ==> chain[i] == 0xFF,
    ensures
        lz4::lengths_fit(prefix + seq![token] + literal_chain + literals + offset + chain) <==> {
            &&& token / 16 == 15 ==> {
                &&& 255 * (literal_chain.len() - 1) + literal_chain.last() <= u32::MAX
                &&& literals.len() <= isize::MAX
            }
            &&& 255 * chain.len() <= u32::MAX
            &&& 19 + 255 * chain.len() <= isize::MAX
        },
{
    let block = prefix + seq![token] + literal_chain + literals + offset + chain;
    let at: int = 5 + literal_chain.len() as int + literals.len();
    assert(block[4] == token);
    if token / 16 == 15 {
        let run = literal_chain.len() - 1;
        assert forall|i: int| 5 <= i < 5 + run implies block[i] == 0xFF by {
            assert(block[i] == literal_chain[i - 5]);
        }
        assert(block[5 + run] == literal_chain[run]);
        lemma_run_is_chain(block, 5, run);
    }
    assert forall|i: int| at + 2 <= i < at + 2 + chain.len() implies block[i] == 0xFF by {
        assert(block[i] == chain[i - at - 2]);
    }
    lemma_run_is_chain(block, at + 2, chain.len() as int);
    assert(lz4::field_end(block, 5, token / 16) + lz4::field_length(block, 5, token / 16) == at);
    assert(lz4::field_end(block, at + 2, token % 16) == block.len());
    assert(lz4::lengths_fit_from(block, block.len() as int));
}

proof fn lemma_short_fits_from(block: Seq<u8>, pos: int)
    requires
        block.len() <= 0x80_8080,
        0 <= pos,
    ensures
        lz4::lengths_fit_from(block, pos),
    decreases block.len() - pos,
{
    if pos < block.len() {
        let token = block[pos];
        lz4::lemma_chain_end(block, pos + 1);
        let at = lz4::field_end(block, pos + 1, token / 16) + lz4::field_length(
            block,
            pos + 1,
            token / 16,
        );
        if at + 2 <= block.len() {
            lz4::lemma_chain_end(block, at + 2);
            lemma_short_fits_from(block, lz4::field_end(block, at + 2, token % 16));
        }
    }
}

/// Bytes too few to hold a chain that adds up to `i32::MAX` have no length that is too large.
pub proof fn short_blocks_fit(block: Seq<u8>)
    requires
        block.len() <= 0x80_8080,
    ensures
        lz4::lengths_fit(block),
{
    lemma_short_fits_from(block, 4);
}

} // verus!
