use futures_cache::key::frame_key;
use futures_cache::{Cache, Error};
use serde_cbor::Value;
use std::collections::BTreeMap;

fn cbor(value: &Value) -> Vec<u8> {
    serde_cbor::to_vec(value).unwrap()
}

fn text(s: &str) -> Value {
    Value::Text(s.to_string())
}

#[test]
fn key_outside_namespaces_has_an_absent_first_slot() {
    let framed = frame_key(None, &[0x61, b'x']);
    assert_eq!(framed, vec![0x82, 0xf6, 0x61, b'x']);
}

#[test]
fn key_in_a_namespace_has_the_name_as_first_slot() {
    let framed = frame_key(Some("a"), &[0x61, b'x']);
    assert_eq!(framed, vec![0x82, 0x61, b'a', 0x61, b'x']);
    let empty = frame_key(Some(""), &[0x01]);
    assert_eq!(empty, vec![0x82, 0x60, 0x01]);
}

#[test]
fn key_is_the_array_that_serde_cbor_writes() {
    let logical = text("x");
    for ns in [None, Some(""), Some("a"), Some("b"), Some("a longer namespace, beyond 23 bytes")] {
        let first = match ns {
            None => Value::Null,
            Some(name) => text(name),
        };
        let expected = cbor(&Value::Array(vec![first, logical.clone()]));
        assert_eq!(frame_key(ns, &cbor(&logical)), expected);
    }
    let long = "n".repeat(300);
    let expected = cbor(&Value::Array(vec![text(&long), Value::Integer(7)]));
    assert_eq!(frame_key(Some(&long), &cbor(&Value::Integer(7))), expected);
}

#[test]
fn key_with_a_name_beyond_ascii_is_written_in_utf8() {
    let expected = cbor(&Value::Array(vec![text("käse"), Value::Bool(true)]));
    assert_eq!(frame_key(Some("käse"), &cbor(&Value::Bool(true))), expected);
}

#[test]
fn key_of_equal_inputs_is_equal() {
    let a = frame_key(Some("ns"), &[1, 2, 3]);
    let b = frame_key(Some("ns"), &[1, 2, 3]);
    assert_eq!(a, b);
}

#[test]
fn keys_of_two_namespaces_differ() {
    let x = cbor(&text("x"));
    assert_ne!(frame_key(Some("a"), &x), frame_key(Some("b"), &x));
    assert_ne!(frame_key(Some("a"), &x), frame_key(None, &x));
    // A name that continues into the key is still another key.
    assert_ne!(frame_key(Some("a"), &[0x61, b'b']), frame_key(Some("ab"), &[]));
    assert_ne!(frame_key(Some(""), &[0x61, b'a']), frame_key(Some("a"), &[]));
}

#[test]
fn cache_key_uses_the_namespace_of_the_cache() {
    let root = Cache::new();
    let a = root.namespaced("a");
    let x = cbor(&text("x"));
    assert_eq!(root.key(&x).unwrap(), cbor(&Value::Array(vec![Value::Null, text("x")])));
    assert_eq!(a.key(&x).unwrap(), cbor(&Value::Array(vec![text("a"), text("x")])));
    assert_eq!(a.frame(&x), a.key(&x).unwrap());
    assert_eq!(root.frame(&x), root.key(&x).unwrap());
}

#[test]
fn cache_key_with_ns_ignores_the_namespace_of_the_cache() {
    let a = Cache::new().namespaced("a");
    let x = cbor(&text("x"));
    assert_eq!(
        a.key_with_ns(Some("b"), &x).unwrap(),
        cbor(&Value::Array(vec![text("b"), text("x")]))
    );
    assert_eq!(
        a.key_with_ns(None, &x).unwrap(),
        cbor(&Value::Array(vec![Value::Null, text("x")]))
    );
    assert_eq!(a.delete_with_ns(Some("b"), &x).unwrap(), a.key_with_ns(Some("b"), &x).unwrap());
    assert_eq!(a.delete_with_ns(None, &x).unwrap(), Cache::new().key(&x).unwrap());
}

#[test]
fn cache_key_of_a_map_does_not_depend_on_the_order_it_was_written_in() {
    // {"alpha": 1, "b": 2}, written in both orders
    let forward = [&[0xa2u8][..], &[0x65], b"alpha", &[0x01], &[0x61], b"b", &[0x02]].concat();
    let backward = [&[0xa2u8][..], &[0x61], b"b", &[0x02], &[0x65], b"alpha", &[0x01]].concat();
    assert_ne!(forward, backward);
    let cache = Cache::new().namespaced("maps");
    let one = cache.key(&forward).unwrap();
    let two = cache.key(&backward).unwrap();
    assert_eq!(one, two);
    // the shorter label comes first
    assert_eq!(one, cache.frame(&backward));
    assert_ne!(one, cache.frame(&forward));
    // and it is the form that the ordered map of serde_cbor has
    let mut map = BTreeMap::new();
    map.insert(text("alpha"), Value::Integer(1));
    map.insert(text("b"), Value::Integer(2));
    assert_eq!(one, cache.frame(&cbor(&Value::Map(map))));
}

#[test]
fn cache_key_brings_longer_heads_to_the_shortest_form() {
    let cache = Cache::new();
    // the text "x" with its length in a byte of its own
    let wide = vec![0x78u8, 0x01, b'x'];
    assert_eq!(cache.key(&wide).unwrap(), cache.frame(&[0x61, b'x']));
    assert_ne!(cache.frame(&wide), cache.frame(&[0x61, b'x']));
}

#[test]
fn namespaced_caches_can_be_derived_from_one_another_and_cloned() {
    let root = Cache::new();
    let a = root.namespaced("a");
    let b = a.namespaced("b");
    let b2 = b.clone();
    let x = cbor(&text("x"));
    assert_eq!(b.key(&x).unwrap(), root.key_with_ns(Some("b"), &x).unwrap());
    assert_eq!(b2.key(&x).unwrap(), b.key(&x).unwrap());
    assert_ne!(a.key(&x).unwrap(), b.key(&x).unwrap());
}

#[test]
fn error_kinds_are_described() {
    assert_eq!(Error::Cbor("refused".to_string()).describe(), "CBOR error");
    assert_eq!(Error::EmptyValue.describe(), "empty value");
    assert_eq!(Error::Expiry.describe(), "expiry out of range");
}

#[test]
fn key_that_is_no_cbor_is_an_error() {
    let cache = Cache::new().namespaced("ns");
    let age = futures_cache::Duration::seconds(1);
    let cases: Vec<Vec<u8>> = vec![
        vec![],
        vec![0xff],
        vec![0x61],
        vec![0x61, b'x', 0x00],
        vec![0x1c],
    ];
    for broken in cases {
        assert!(matches!(cache.key(&broken), Err(Error::Cbor(ref m)) if !m.is_empty()));
        assert!(matches!(cache.key_with_ns(None, &broken), Err(Error::Cbor(_))));
        assert!(matches!(cache.delete_with_ns(Some("a"), &broken), Err(Error::Cbor(_))));
        assert!(matches!(cache.insert(&broken, &age, &[0x01]), Err(Error::Cbor(_))));
        assert!(matches!(cache.insert(&broken, &age, &[]), Err(Error::Cbor(_))));
    }
}
