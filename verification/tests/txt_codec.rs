//! TXT record codec behaviour on concrete buffers.

use dns_sd::txt::{parse_txt_record, TxtRecord};

fn record_of(pairs: &[(&str, &str)]) -> TxtRecord {
    let mut r = TxtRecord::new();
    for (k, v) in pairs {
        r.set(k.as_bytes().to_vec(), v.as_bytes().to_vec());
    }
    r
}

fn pairs_of(r: &TxtRecord) -> Vec<(Vec<u8>, Vec<u8>)> {
    r.entries.iter().map(|e| (e.key.clone(), e.value.clone())).collect()
}

#[test]
fn round_trip_single_pair() {
    let r = record_of(&[("path", "/")]);
    let bytes = r.encode();
    assert_eq!(bytes, vec![6, b'p', b'a', b't', b'h', b'=', b'/']);
    let back = parse_txt_record(&bytes);
    assert_eq!(pairs_of(&back), pairs_of(&r));
}

#[test]
fn round_trip_many_pairs() {
    let r = record_of(&[("a", "1"), ("key", "value"), ("empty", ""), ("x", "y=z")]);
    let back = parse_txt_record(&r.encode());
    assert_eq!(pairs_of(&back), pairs_of(&r));
}

#[test]
fn round_trip_largest_segment() {
    // Key, separator and value together exactly fill the length byte.
    let key = vec![b'k'];
    let value = vec![b'v'; 253];
    let mut r = TxtRecord::new();
    r.set(key.clone(), value.clone());
    let bytes = r.encode();
    assert_eq!(bytes.len(), 256);
    assert_eq!(bytes[0], 255);
    let back = parse_txt_record(&bytes);
    assert_eq!(pairs_of(&back), vec![(key, value)]);
}

#[test]
fn decode_known_bytes() {
    let bytes = [4u8, b'a', b'=', b'b', b'c'];
    let r = parse_txt_record(&bytes);
    assert_eq!(pairs_of(&r), vec![(b"a".to_vec(), b"bc".to_vec())]);
}

#[test]
fn decode_bare_key_has_empty_value() {
    let bytes = [3u8, b'k', b'e', b'y'];
    let r = parse_txt_record(&bytes);
    assert_eq!(pairs_of(&r), vec![(b"key".to_vec(), Vec::new())]);
}

#[test]
fn decode_empty_buffer() {
    let r = parse_txt_record(&[]);
    assert!(r.is_empty());
}

#[test]
fn decode_zero_length_segment() {
    let r = parse_txt_record(&[0u8]);
    assert_eq!(pairs_of(&r), vec![(Vec::new(), Vec::new())]);
}

#[test]
fn decode_value_keeps_later_separators() {
    let bytes = [5u8, b'k', b'=', b'a', b'=', b'b'];
    let r = parse_txt_record(&bytes);
    assert_eq!(pairs_of(&r), vec![(b"k".to_vec(), b"a=b".to_vec())]);
}

#[test]
fn truncated_segment_decodes_valid_prefix() {
    let r = record_of(&[("one", "1"), ("two", "2")]);
    let mut bytes = r.encode();
    // Cut the buffer in the middle of the second segment.
    bytes.truncate(8);
    let back = parse_txt_record(&bytes);
    assert_eq!(pairs_of(&back), vec![(b"one".to_vec(), b"1".to_vec())]);
}

#[test]
fn truncated_length_byte_alone_decodes_nothing() {
    let back = parse_txt_record(&[7u8]);
    assert!(back.is_empty());
}

#[test]
fn duplicate_key_last_occurrence_wins() {
    // Two segments with the same key, straight on the wire.
    let bytes = [3u8, b'k', b'=', b'1', 3u8, b'k', b'=', b'2'];
    let r = parse_txt_record(&bytes);
    assert_eq!(r.get(b"k"), Some(b"2".to_vec()));
}

#[test]
fn get_missing_key_is_none() {
    let r = record_of(&[("a", "1")]);
    assert_eq!(r.get(b"b"), None);
    assert_eq!(r.get(b"a"), Some(b"1".to_vec()));
}

#[test]
fn len_counts_segments() {
    let r = record_of(&[("a", "1"), ("b", "2")]);
    assert_eq!(r.len(), 2);
    assert!(!r.is_empty());
}
