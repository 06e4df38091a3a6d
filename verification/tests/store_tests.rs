use graxus::store::{content_hash, from_binary, to_binary, StoreError, StoredRecord};

fn record(id: &str, text: &str, vector: &[f32]) -> StoredRecord {
    StoredRecord {
        id: id.to_string(),
        kind: "doc".to_string(),
        text: text.to_string(),
        vector_bits: vector.iter().map(|f| f.to_bits()).collect(),
        content_hash: "abc123".to_string(),
    }
}

fn floats(r: &StoredRecord) -> Vec<f32> {
    r.vector_bits.iter().map(|b| f32::from_bits(*b)).collect()
}

#[test]
fn test_content_hash_deterministic() {
    let h1 = content_hash("goodbye world");
    let h2 = content_hash("goodbye world");
    assert_eq!(h1, h2);
}

#[test]
fn test_content_hash_different() {
    let h1 = content_hash("goodbye");
    let h2 = content_hash("world");
    assert_ne!(h1, h2);
}

#[test]
fn content_hash_is_lowercase_hex_sha256() {
    assert_eq!(content_hash(""), "e3b0c44298fc1c149afbf4c8996fb92427ae41e4649b934ca495991b7852b855");
    assert_eq!(content_hash("abc"), "ba7816bf8f01cfea414140de5dae2223b00361a396177a9cb410ff61f20015ad");
}

#[test]
fn test_binary_save_load() {
    let records = vec![record("test:1", "goodbye world", &[1.0, 0.0, 0.5]), record("test:2", "hello", &[0.0, 1.0, -0.5])];
    let raw = to_binary(&records).unwrap();
    let loaded = from_binary(&raw).unwrap();
    assert_eq!(loaded.len(), 2);
    assert_eq!(loaded[0].id, "test:1");
    assert_eq!(loaded[0].kind, "doc");
    assert_eq!(loaded[0].text, "goodbye world");
    assert_eq!(floats(&loaded[0]), vec![1.0, 0.0, 0.5]);
    assert_eq!(loaded[0].content_hash, "abc123");
    assert_eq!(loaded[1].id, "test:2");
    assert_eq!(floats(&loaded[1]), vec![0.0, 1.0, -0.5]);
    assert_eq!(&raw[..4], b"GRVX");
}

#[test]
fn test_empty_store_binary_roundtrip() {
    let raw = to_binary(&vec![]).unwrap();
    assert_eq!(raw, vec![b'G', b'R', b'V', b'X', 1, 0, 0, 0, 0, 0, 0, 0]);
    let loaded = from_binary(&raw).unwrap();
    assert_eq!(loaded.len(), 0);
    assert!(loaded.is_empty());
}

#[test]
fn test_unicode_text_roundtrip() {
    let raw = to_binary(&vec![record("u", "Héllo Wörld 日本語", &[0.25])]).unwrap();
    let loaded = from_binary(&raw).unwrap();
    assert_eq!(loaded[0].text, "Héllo Wörld 日本語");
}

#[test]
fn read_errors() {
    assert_eq!(from_binary(b"GRV").err(), Some(StoreError::Truncated));
    assert_eq!(from_binary(b"JSON{}").err(), Some(StoreError::BadMagic));
    assert_eq!(from_binary(&[b'G', b'R', b'V', b'X', 2, 0, 0, 0, 0, 0, 0, 0]).err(), Some(StoreError::UnsupportedVersion(2)));
    assert_eq!(
        from_binary(&[b'G', b'R', b'V', b'X', 1, 0, 0, 0, 0x81, 0x96, 0x98, 0]).err(),
        Some(StoreError::TooManyRecords(10_000_001))
    );
    let raw = to_binary(&vec![record("a", "b", &[1.0])]).unwrap();
    assert_eq!(from_binary(&raw[..raw.len() - 1]).err(), Some(StoreError::Truncated));
    let mut bad = to_binary(&vec![record("a", "b", &[])]).unwrap();
    bad[16] = 0xff;
    assert_eq!(from_binary(&bad).err(), Some(StoreError::InvalidUtf8));
    let mut long = to_binary(&vec![record("a", "b", &[])]).unwrap();
    let n = long.len();
    long[n - 4..].copy_from_slice(&100_001u32.to_le_bytes());
    assert_eq!(from_binary(&long).err(), Some(StoreError::VectorTooLong(100_001)));
}

#[test]
fn trailing_bytes_are_not_read() {
    let mut raw = to_binary(&vec![record("a", "b", &[2.0])]).unwrap();
    raw.extend_from_slice(b"trailing");
    let loaded = from_binary(&raw).unwrap();
    assert_eq!(loaded.len(), 1);
    assert_eq!(floats(&loaded[0]), vec![2.0]);
}
