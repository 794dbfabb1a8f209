use leaf_compression::lz4::is_readable;
use leaf_compression::{keep_if_worthwhile, CompressionAlgorithm, DecompressFailure};

const ALL: [CompressionAlgorithm; 2] = [
    CompressionAlgorithm::Uncompressed,
    CompressionAlgorithm::Lz4,
];

/// Bytes without any repetition worth a match.
fn noise(len: usize) -> Vec<u8> {
    let mut state: u32 = 12345;
    let mut out = Vec::new();
    for _ in 0..len {
        state = state.wrapping_mul(1664525).wrapping_add(1013904223);
        out.push((state >> 24) as u8);
    }
    out
}

#[test]
fn flag_bytes() {
    assert_eq!(CompressionAlgorithm::Uncompressed.flag_byte(), 0x00);
    assert_eq!(CompressionAlgorithm::Lz4.flag_byte(), 0x01);
}

#[test]
fn flag_reads_back_under_any_high_half() {
    for algorithm in ALL {
        for high in 0..16u8 {
            let byte = algorithm.flag_byte() | (high << 4);
            assert_eq!(CompressionAlgorithm::from_flag_byte(byte), algorithm);
        }
    }
}

#[test]
fn unknown_flags_read_as_uncompressed() {
    for byte in 0..=255u8 {
        let expected = if byte & 0x0F == 0x01 {
            CompressionAlgorithm::Lz4
        } else {
            CompressionAlgorithm::Uncompressed
        };
        assert_eq!(CompressionAlgorithm::from_flag_byte(byte), expected);
    }
}

#[test]
fn flags_differ_and_active_flags_are_not_zero() {
    assert_ne!(ALL[0].flag_byte(), ALL[1].flag_byte());
    for algorithm in ALL {
        assert_eq!(algorithm.is_active(), algorithm.flag_byte() != 0);
    }
}

#[test]
fn default_is_inactive() {
    assert_eq!(
        CompressionAlgorithm::default(),
        CompressionAlgorithm::Uncompressed
    );
    assert!(!CompressionAlgorithm::default().is_active());
    assert!(CompressionAlgorithm::Lz4.is_active());
}

#[test]
fn a_quarter_saved_is_enough() {
    let data = [0u8; 20];
    assert_eq!(keep_if_worthwhile(&data, vec![7; 14]), Some(vec![7; 14]));
    assert_eq!(keep_if_worthwhile(&data, vec![7; 15]), Some(vec![7; 15]));
    assert_eq!(keep_if_worthwhile(&data, vec![7; 16]), None);
    assert_eq!(keep_if_worthwhile(&data, vec![7; 40]), None);
    assert_eq!(keep_if_worthwhile(&[], vec![7]), None);
}

#[test]
fn uncompressed_never_compresses() {
    assert_eq!(CompressionAlgorithm::Uncompressed.compress(&[0; 4096]), None);
    assert_eq!(CompressionAlgorithm::Uncompressed.compress(&[]), None);
}

#[test]
fn short_values_are_stored_verbatim() {
    for len in 0..13 {
        assert_eq!(CompressionAlgorithm::Lz4.compress(&vec![0; len]), None);
    }
}

#[test]
fn noise_is_stored_verbatim() {
    assert_eq!(CompressionAlgorithm::Lz4.compress(&noise(16 * 1024)), None);
}

#[test]
fn zeros_round_trip() {
    for len in [64usize, 4096, 65534, 65535, 65536, 1_000_003] {
        let data = vec![0u8; len];
        let compressed = CompressionAlgorithm::Lz4.compress(&data).unwrap();
        assert_ne!(compressed, data);
        assert!(compressed.len() * 4 <= data.len() * 3);
        assert_eq!(compressed[..4], (len as u32).to_le_bytes());
        assert!(is_readable(&compressed));
        assert_eq!(CompressionAlgorithm::Lz4.decompress(&compressed), data);
        assert_eq!(
            CompressionAlgorithm::Lz4.try_decompress(&compressed),
            Ok(data)
        );
    }
}

#[test]
fn half_noise_round_trips() {
    let mut data = noise(8 * 1024);
    data.extend_from_slice(&[0xFF; 8 * 1024]);
    let compressed = CompressionAlgorithm::Lz4.compress(&data).unwrap();
    assert_eq!(CompressionAlgorithm::Lz4.decompress(&compressed), data);
}

#[test]
fn different_values_compress_differently() {
    let one = CompressionAlgorithm::Lz4.compress(&[1; 100]).unwrap();
    let other = CompressionAlgorithm::Lz4.compress(&[2; 100]).unwrap();
    assert_ne!(one, other);
}

#[test]
fn blocks_written_by_hand_decompress() {
    // Three literals.
    let literals = [3, 0, 0, 0, 0x30, b'a', b'4', b'9'];
    assert_eq!(CompressionAlgorithm::Lz4.decompress(&literals), b"a49");
    // One literal, a match of seven bytes at distance one, two literals.
    let with_match = [10, 0, 0, 0, 0x13, b'x', 1, 0, 0x20, b'y', b'z'];
    assert_eq!(
        CompressionAlgorithm::Lz4.try_decompress(&with_match),
        Ok(b"xxxxxxxxyz".to_vec())
    );
    // The declared length is only an upper bound.
    let roomy = [9, 0, 0, 0, 0x10, b'a'];
    assert_eq!(CompressionAlgorithm::Lz4.decompress(&roomy), b"a");
}

#[test]
fn inactive_failure() {
    assert_eq!(
        CompressionAlgorithm::Uncompressed.try_decompress(&[3, 0, 0, 0, 0x30, b'a', b'4', b'9']),
        Err(DecompressFailure::Inactive)
    );
}

#[test]
fn corrupt_failures() {
    let lz4 = CompressionAlgorithm::Lz4;
    let corrupt = Err(DecompressFailure::Corrupt);
    assert_eq!(lz4.try_decompress(&[]), corrupt);
    assert_eq!(lz4.try_decompress(&[1, 2, 3]), corrupt);
    assert_eq!(lz4.try_decompress(&[1, 0, 0, 0]), corrupt);
    // More literals than there are bytes.
    assert_eq!(lz4.try_decompress(&[4, 0, 0, 0, 0x40, b'a']), corrupt);
    // More data than the declared length.
    assert_eq!(lz4.try_decompress(&[1, 0, 0, 0, 0x20, b'a', b'b']), corrupt);
    // A match at distance zero, and one that reaches before the start.
    assert_eq!(lz4.try_decompress(&[9, 0, 0, 0, 0x10, b'a', 0, 0]), corrupt);
    assert_eq!(lz4.try_decompress(&[9, 0, 0, 0, 0x10, b'a', 2, 0]), corrupt);
    // Cut short.
    let mut compressed = lz4.compress(&[5; 4096]).unwrap();
    compressed.pop();
    assert_eq!(lz4.try_decompress(&compressed), corrupt);
}

/// A length that is chained behind a half-byte of fifteen.
fn push_chain(out: &mut Vec<u8>, mut rest: usize) {
    while rest >= 255 {
        out.push(0xFF);
        rest -= 255;
    }
    out.push(rest as u8);
}

#[test]
fn long_runs_of_plain_data_decompress() {
    let data = vec![0xFF; 20_000_000];
    let mut block = (data.len() as u32).to_le_bytes().to_vec();
    block.push(0xF0);
    push_chain(&mut block, data.len() - 15);
    block.extend_from_slice(&data);
    assert!(is_readable(&block));
    assert_eq!(CompressionAlgorithm::Lz4.decompress(&block), data);
    assert_eq!(CompressionAlgorithm::Lz4.try_decompress(&block), Ok(data));
}

#[test]
fn long_match_chains_decompress() {
    let len = 100_000usize;
    let mut block = (len as u32).to_le_bytes().to_vec();
    // One literal, a match at distance one over all but six bytes, five literals.
    block.extend_from_slice(&[0x1F, b'm', 1, 0]);
    push_chain(&mut block, len - 6 - 4 - 15);
    block.extend_from_slice(&[0x50, b'e', b'n', b'd', b'e', b'd']);
    let mut expected = vec![b'm'; len - 5];
    expected.extend_from_slice(b"ended");
    assert_eq!(CompressionAlgorithm::Lz4.try_decompress(&block), Ok(expected));
}

/// So many bytes of `0xFF` add up to `u32::MAX`.
const CHAIN_TO_U32_MAX: usize = 0x0101_0101;

#[test]
fn oversized_failures() {
    let lz4 = CompressionAlgorithm::Lz4;
    let oversized = Err(DecompressFailure::Oversized);
    // A number of literals, and a length of a match, one above 32 bits.
    for start in [vec![1u8, 0, 0, 0, 0xF0], vec![1u8, 0, 0, 0, 0x1F, b'a', 1, 0]] {
        let mut chain = start;
        chain.extend_from_slice(&vec![0xFF; CHAIN_TO_U32_MAX]);
        chain.push(1);
        assert!(!is_readable(&chain));
        assert_eq!(lz4.try_decompress(&chain), oversized);
    }
    // A chain that runs out of bytes is too long all the same.
    let mut open = vec![1u8, 0, 0, 0, 0xF0];
    open.extend_from_slice(&vec![0xFF; CHAIN_TO_U32_MAX + 1]);
    assert_eq!(lz4.try_decompress(&open), oversized);
}

#[test]
fn longest_chain_is_still_read() {
    for start in [vec![1u8, 0, 0, 0, 0xF0], vec![1u8, 0, 0, 0, 0x1F, b'a', 1, 0]] {
        let mut chain = start;
        chain.extend_from_slice(&vec![0xFF; CHAIN_TO_U32_MAX]);
        chain.push(0);
        assert!(is_readable(&chain));
        assert_eq!(
            CompressionAlgorithm::Lz4.try_decompress(&chain),
            Err(DecompressFailure::Corrupt)
        );
    }
}

#[test]
fn readable_bytes() {
    assert!(is_readable(&[]));
    assert!(is_readable(&[1, 2, 3]));
    assert!(is_readable(&[0xFF, 0, 0, 0, 0xFF, 0xFF]));
    assert!(is_readable(&[0xFF, 0, 0, 0, 0xFF, 0, 1, 2]));
}
