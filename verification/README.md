# leaf_compression

Compression of the large values that a table stores in its leaf pages, verified with Verus.

- `src/algorithm.rs`: the algorithms, their mark in the page header, `compress` and `decompress`.
- `src/lz4.rs`: LZ4 blocks, and everything that is trusted about `lz4_flex`.
- `src/laws.rs`: what is proved of marks and codec together, such as that a value reads back.
- `app/lib.rs`: decompression that panics on a damaged page.
- `tests/`: the codec run with the real encoder and decoder.
