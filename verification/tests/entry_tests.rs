use futures_cache::entry::{decode_full, decode_partial, encode};
use futures_cache::{Error, PartialStoredEntry, StoredEntry, Timestamp};
use serde_cbor::Value;
use std::collections::BTreeMap;

// 2019-06-01T12:00:00Z
const NOON: i64 = 1_559_390_400;

fn noon() -> Timestamp {
    Timestamp { secs: NOON, nanos: 0 }
}

fn entry_bytes(stamp: &str, payload: &[u8]) -> Vec<u8> {
    let mut out = vec![0xa2u8];
    out.extend(serde_cbor::to_vec(&"expires_at").unwrap());
    out.extend(serde_cbor::to_vec(&stamp).unwrap());
    out.extend(serde_cbor::to_vec(&"value").unwrap());
    out.extend_from_slice(payload);
    out
}

#[test]
fn entry_is_a_map_of_expiry_and_value() {
    let bytes = encode(&noon(), &[0x01]).unwrap();
    let mut expected = vec![0xa2u8, 0x6a];
    expected.extend_from_slice(b"expires_at");
    expected.push(0x74);
    expected.extend_from_slice(b"2019-06-01T12:00:00Z");
    expected.push(0x65);
    expected.extend_from_slice(b"value");
    expected.push(0x01);
    assert_eq!(bytes, expected);
}

#[test]
fn entry_with_a_longer_expiry_has_a_wider_head() {
    let at = Timestamp { secs: NOON, nanos: 500_000_000 };
    let bytes = encode(&at, &[0xf6]).unwrap();
    assert_eq!(bytes, entry_bytes("2019-06-01T12:00:00.500Z", &[0xf6]));
    assert_eq!(bytes[12], 0x78);
    assert_eq!(bytes[13], 24);
}

#[test]
fn entry_is_read_by_serde_cbor_as_the_map_it_is() {
    let payload = serde_cbor::to_vec(&Value::Array(vec![Value::Integer(1), Value::Bool(false)]))
        .unwrap();
    let bytes = encode(&noon(), &payload).unwrap();
    let map: BTreeMap<String, Value> = serde_cbor::from_slice(&bytes).unwrap();
    assert_eq!(map.len(), 2);
    assert_eq!(map.get("expires_at"), Some(&Value::Text("2019-06-01T12:00:00Z".to_string())));
    assert_eq!(
        map.get("value"),
        Some(&Value::Array(vec![Value::Integer(1), Value::Bool(false)]))
    );
}

#[test]
fn entry_expiry_is_read_by_chrono_through_serde_cbor() {
    let at = Timestamp { secs: NOON, nanos: 123_000_000 };
    let bytes = encode(&at, &[0x01]).unwrap();
    let map: BTreeMap<String, Value> = serde_cbor::from_slice(&bytes).unwrap();
    let stamp: chrono::DateTime<chrono::Utc> =
        serde_cbor::value::from_value(map.get("expires_at").unwrap().clone()).unwrap();
    assert_eq!(stamp.timestamp(), NOON);
    assert_eq!(stamp.timestamp_subsec_nanos(), 123_000_000);
}

#[test]
fn encode_refuses_an_empty_payload() {
    assert!(matches!(encode(&noon(), &[]), Err(Error::EmptyValue)));
    let unwritable = Timestamp { secs: i64::MAX, nanos: 0 };
    assert!(matches!(encode(&unwritable, &[]), Err(Error::EmptyValue)));
}

#[test]
fn encode_refuses_an_expiry_without_a_written_form() {
    let unwritable = Timestamp { secs: i64::MAX, nanos: 0 };
    assert!(matches!(encode(&unwritable, &[0x01]), Err(Error::Expiry)));
    let leap = Timestamp { secs: NOON, nanos: 1_500_000_000 };
    assert!(matches!(encode(&leap, &[0x01]), Err(Error::Expiry)));
}

#[test]
fn decode_full_gives_back_expiry_and_payload() {
    let payload = vec![0x83u8, 0x01, 0x02, 0x03];
    let bytes = encode(&noon(), &payload).unwrap();
    let entry: StoredEntry<Vec<u8>> = decode_full(&bytes).unwrap();
    assert_eq!(entry.expires_at, noon());
    assert_eq!(entry.value, payload);
}

#[test]
fn decode_partial_gives_back_the_expiry() {
    let at = Timestamp { secs: -5, nanos: 999_999_999 };
    let bytes = encode(&at, &[0x01, 0x02]).unwrap();
    let entry: PartialStoredEntry = decode_partial(&bytes).unwrap();
    assert_eq!(entry.expires_at, at);
}

#[test]
fn decode_reads_an_expiry_with_an_offset() {
    let bytes = entry_bytes("2019-06-01T14:00:00+02:00", &[0x01]);
    assert_eq!(decode_partial(&bytes).unwrap().expires_at, noon());
    assert_eq!(decode_full(&bytes).unwrap().expires_at, noon());
}

#[test]
fn decode_refuses_bytes_that_are_no_entry() {
    let good = encode(&noon(), &[0x01]).unwrap();
    let mut cases: Vec<Vec<u8>> = vec![
        vec![],
        vec![0xa2],
        vec![0xff, 0x00, 0x13],
        b"not an entry at all".to_vec(),
        good[..good.len() - 1].to_vec(),
        good[..20].to_vec(),
        entry_bytes("not a time", &[0x01]),
        entry_bytes("2019-06-01T12:00:00Z", &[]),
    ];
    let mut other_map = good.clone();
    other_map[0] = 0xa3;
    cases.push(other_map);
    let mut other_label = good.clone();
    other_label[2] = b'E';
    cases.push(other_label);
    let mut swapped = vec![0xa2u8];
    swapped.extend(serde_cbor::to_vec(&"value").unwrap());
    swapped.push(0x01);
    swapped.extend(serde_cbor::to_vec(&"expires_at").unwrap());
    swapped.extend(serde_cbor::to_vec(&"2019-06-01T12:00:00Z").unwrap());
    cases.push(swapped);
    for bytes in cases {
        assert!(decode_partial(&bytes).is_none(), "{:?}", bytes);
        assert!(decode_full(&bytes).is_none(), "{:?}", bytes);
    }
}

#[test]
fn partial_and_full_decode_agree() {
    let good = encode(&Timestamp { secs: 77, nanos: 1 }, &[0x18, 0x2a]).unwrap();
    let mut truncated = good.clone();
    truncated.truncate(30);
    for bytes in [good, truncated, vec![0u8; 4]] {
        let partial = decode_partial(&bytes);
        let full = decode_full(&bytes);
        assert_eq!(partial.is_some(), full.is_some());
        if let (Some(p), Some(f)) = (partial, full) {
            assert_eq!(p.expires_at, f.expires_at);
        }
    }
}

#[test]
fn entry_is_expired_from_its_expiry_on() {
    let entry = StoredEntry { expires_at: noon(), value: 5u8 };
    assert!(!entry.is_expired(&Timestamp { secs: NOON - 1, nanos: 999_999_999 }));
    assert!(entry.is_expired(&noon()));
    assert!(entry.is_expired(&Timestamp { secs: NOON, nanos: 1 }));
    let partial = PartialStoredEntry { expires_at: noon() };
    assert!(!partial.is_expired(&Timestamp { secs: NOON - 1, nanos: 0 }));
    assert!(partial.is_expired(&noon()));
    assert!(partial.is_expired(&Timestamp { secs: NOON + 1, nanos: 0 }));
}

#[test]
fn partial_entry_becomes_an_entry_without_value() {
    let stored = PartialStoredEntry { expires_at: noon() }.into_stored_entry();
    assert_eq!(stored.expires_at, noon());
    assert_eq!(stored.value, ());
}
