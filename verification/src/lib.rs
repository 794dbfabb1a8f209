//! Compression of the large values that a table stores in its leaf pages.
//!
//! A table is opened with a [`CompressionAlgorithm`]. Each value is offered to
//! [`CompressionAlgorithm::compress`], which answers with the bytes to store in its place, or
//! with nothing where compressing would save too little. The algorithm in use is recorded in the
//! low half of one byte of the page header, so that a reader knows whether to decompress.
pub mod algorithm;
pub mod calls;
pub mod laws;
pub mod lengths;
pub mod lz4;

pub use algorithm::{keep_if_worthwhile, CompressionAlgorithm, DecompressFailure};
