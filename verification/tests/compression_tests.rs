//! Values of a small in-memory table, each stored the way a leaf page stores it: a header byte
//! and the bytes that `compress` gave for the value, or the value itself.
use leaf_compression::CompressionAlgorithm;
use std::collections::BTreeMap;

struct Table {
    compression: CompressionAlgorithm,
    pages: BTreeMap<u64, (u8, Vec<u8>)>,
}

fn load(page: &(u8, Vec<u8>)) -> Vec<u8> {
    let algorithm = CompressionAlgorithm::from_flag_byte(page.0);
    if algorithm.is_active() {
        algorithm.decompress(&page.1)
    } else {
        page.1.clone()
    }
}

impl Table {
    fn open(compression: CompressionAlgorithm) -> Self {
        Table {
            compression,
            pages: BTreeMap::new(),
        }
    }

    fn insert(&mut self, key: u64, value: &[u8]) -> Option<Vec<u8>> {
        let page = match self.compression.compress(value) {
            Some(compressed) => (self.compression.flag_byte(), compressed),
            None => (CompressionAlgorithm::Uncompressed.flag_byte(), value.to_vec()),
        };
        self.pages.insert(key, page).map(|old| load(&old))
    }

    fn get(&self, key: u64) -> Option<Vec<u8>> {
        self.pages.get(&key).map(load)
    }

    fn remove(&mut self, key: u64) -> Option<Vec<u8>> {
        self.pages.remove(&key).map(|old| load(&old))
    }

    fn extract_if(&mut self, wanted: impl Fn(u64, &[u8]) -> bool) -> Vec<(u64, Vec<u8>)> {
        let mut extracted = Vec::new();
        self.pages.retain(|key, page| {
            let value = load(page);
            let taken = wanted(*key, &value);
            if taken {
                extracted.push((*key, value));
            }
            !taken
        });
        extracted
    }

    fn retain(&mut self, kept: impl Fn(u64, &[u8]) -> bool) {
        self.pages.retain(|key, page| kept(*key, &load(page)));
    }

    fn stored_bytes(&self) -> usize {
        self.pages.values().map(|page| page.1.len()).sum()
    }
}

/// Returns a compressible JSON-like blob of `size` bytes (lots of repeated structure).
fn json_blob(size: usize) -> Vec<u8> {
    let template = br#"{"id":1234567890,"name":"Alice Smith","email":"alice@example.com","active":true,"score":99.5,"tags":["rust","embedded","database"]}"#;
    let mut out = Vec::with_capacity(size);
    while out.len() < size {
        out.extend_from_slice(template);
    }
    out.truncate(size);
    out
}

#[test]
fn round_trip_get() {
    let blob = json_blob(16 * 1024);
    let mut table = Table::open(CompressionAlgorithm::Lz4);
    table.insert(42, &blob);
    assert_eq!(table.pages[&42].0, 0x01);
    assert!(table.pages[&42].1.len() < blob.len());
    let value = table.get(42).expect("key should exist");
    assert_eq!(value, blob, "decompressed value must match original");
}

#[test]
fn round_trip_small_value_uncompressed() {
    let blob = b"tiny";
    let mut table = Table::open(CompressionAlgorithm::Lz4);
    table.insert(1, blob);
    assert_eq!(table.pages[&1], (0x00, blob.to_vec()));
    let value = table.get(1).expect("key should exist");
    assert_eq!(value, blob);
}

#[test]
fn overwrite_returns_correct_old_value() {
    let v1 = json_blob(16 * 1024);
    let v2 = json_blob(12 * 1024);
    let mut table = Table::open(CompressionAlgorithm::Lz4);
    assert!(table.insert(1, &v1).is_none());

    let old = table.insert(1, &v2);
    assert!(old.is_some(), "should return old value on overwrite");
    assert_eq!(old.unwrap(), v1, "old value must be decompressed v1");

    assert_eq!(table.get(1).unwrap(), v2);
}

#[test]
fn delete_returns_correct_value() {
    let blob = json_blob(16 * 1024);
    let mut table = Table::open(CompressionAlgorithm::Lz4);
    table.insert(99, &blob);

    let removed = table.remove(99);
    assert!(removed.is_some());
    assert_eq!(removed.unwrap(), blob);
    assert!(table.get(99).is_none());
}

#[test]
fn iter_returns_correct_values() {
    let n = 20u64;
    let value_size = 16 * 1024;
    let mut table = Table::open(CompressionAlgorithm::Lz4);
    for i in 0..n {
        table.insert(i, &json_blob(value_size + i as usize));
    }

    let mut count = 0u64;
    for (key, page) in table.pages.iter() {
        let expected = json_blob(value_size + *key as usize);
        assert_eq!(load(page), expected, "iterator value mismatch at key {}", key);
        count += 1;
    }
    assert_eq!(count, n);
}

#[test]
fn multiple_keys_mixed_sizes() {
    let large_blob = json_blob(32 * 1024);
    let small_blob = b"small";
    let mut table = Table::open(CompressionAlgorithm::Lz4);
    table.insert(1, small_blob);
    table.insert(2, &large_blob);
    table.insert(3, small_blob);
    table.insert(4, &large_blob);

    assert_eq!(table.get(1).unwrap(), small_blob);
    assert_eq!(table.get(2).unwrap(), large_blob);
    assert_eq!(table.get(3).unwrap(), small_blob);
    assert_eq!(table.get(4).unwrap(), large_blob);
}

#[test]
fn stored_bytes_are_at_least_halved() {
    let blob = json_blob(16 * 1024);
    let mut compressed = Table::open(CompressionAlgorithm::Lz4);
    let mut uncompressed = Table::open(CompressionAlgorithm::Uncompressed);
    for i in 0..200u64 {
        compressed.insert(i, &blob);
        uncompressed.insert(i, &blob);
    }
    assert_eq!(uncompressed.stored_bytes(), 200 * 16 * 1024);
    let ratio = uncompressed.stored_bytes() as f64 / compressed.stored_bytes() as f64;
    assert!(ratio >= 2.0, "expected at least 2x compression, got {ratio:.2}x");
}

#[test]
fn retain_on_compressed_table() {
    let blob_a = json_blob(16 * 1024);
    let blob_b = json_blob(32 * 1024);
    let blob_c = json_blob(24 * 1024);
    let mut table = Table::open(CompressionAlgorithm::Lz4);
    table.insert(1, &blob_a);
    table.insert(2, &blob_b);
    table.insert(3, &blob_c);

    table.retain(|k, v| {
        assert!(v[0] == b'{', "predicate received compressed bytes");
        k % 2 == 0
    });

    assert!(table.get(1).is_none());
    assert_eq!(table.get(2).expect("key 2 must survive"), blob_b);
    assert!(table.get(3).is_none());
    assert_eq!(table.pages.len(), 1);
}

#[test]
fn retain_preserves_all_on_compressed_table() {
    let blob = json_blob(16 * 1024);
    let mut table = Table::open(CompressionAlgorithm::Lz4);
    for i in 0..5u64 {
        table.insert(i, &blob);
    }

    table.retain(|_k, v| {
        assert!(v[0] == b'{');
        true
    });

    assert_eq!(table.pages.len(), 5);
    for i in 0..5u64 {
        assert_eq!(table.get(i).expect("all keys must survive"), blob);
    }
}

#[test]
fn extract_if_on_compressed_table() {
    let blob_a = json_blob(16 * 1024);
    let blob_b = json_blob(32 * 1024);
    let mut table = Table::open(CompressionAlgorithm::Lz4);
    table.insert(10, &blob_a);
    table.insert(20, &blob_b);

    let extracted = table.extract_if(|k, v| {
        assert!(v[0] == b'{', "predicate received compressed bytes");
        k == 10
    });
    assert_eq!(extracted.len(), 1);
    assert_eq!(extracted[0].0, 10u64);
    assert_eq!(extracted[0].1, blob_a);

    assert!(table.get(10).is_none());
    assert_eq!(table.get(20).expect("key 20 must survive"), blob_b);
}

#[test]
fn uncompressed_db_readable_without_compression_flag() {
    let blob = json_blob(16 * 1024);
    let mut table = Table::open(CompressionAlgorithm::default());
    table.insert(7, &blob);
    assert_eq!(table.pages[&7], (0, blob.clone()));
    assert_eq!(table.get(7).expect("key must exist"), blob);
}
