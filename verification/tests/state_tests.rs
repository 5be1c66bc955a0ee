use futures_cache::{EntryRef, State, StoredEntry, Timestamp};

fn at(secs: i64) -> Timestamp {
    Timestamp { secs, nanos: 0 }
}

fn stored(value: &str) -> StoredEntry<String> {
    StoredEntry { expires_at: at(100), value: value.to_string() }
}

#[test]
fn constructors_set_key_and_state() {
    let fresh = EntryRef::fresh(vec![1u8], stored("a"));
    assert_eq!(fresh.key, vec![1u8]);
    assert!(matches!(fresh.state, State::Fresh(ref e) if e.value == "a" && e.expires_at == at(100)));
    let expired = EntryRef::expired(vec![2u8], stored("b"));
    assert_eq!(expired.key, vec![2u8]);
    assert!(matches!(expired.state, State::Expired(ref e) if e.value == "b"));
    let missing: EntryRef<String> = EntryRef::missing(vec![3u8]);
    assert_eq!(missing.key, vec![3u8]);
    assert!(matches!(missing.state, State::Missing));
}

#[test]
fn resolved_judges_by_the_clock() {
    let before = EntryRef::resolved(vec![1u8], Some(stored("a")), &at(99));
    assert!(matches!(before.state, State::Fresh(_)));
    let on_time = EntryRef::resolved(vec![1u8], Some(stored("a")), &at(100));
    assert!(matches!(on_time.state, State::Expired(_)));
    let after = EntryRef::resolved(vec![1u8], Some(stored("a")), &at(101));
    assert!(matches!(after.state, State::Expired(_)));
    let nothing: EntryRef<String> = EntryRef::resolved(vec![1u8], None, &at(0));
    assert!(matches!(nothing.state, State::Missing));
}

#[test]
fn get_gives_the_value_fresh_or_expired() {
    assert_eq!(EntryRef::fresh(vec![1u8], stored("a")).get(), Some("a".to_string()));
    assert_eq!(EntryRef::expired(vec![1u8], stored("b")).get(), Some("b".to_string()));
    assert_eq!(EntryRef::<String>::missing(vec![1u8]).get(), None);
}

#[test]
fn delete_if_expired_keeps_a_fresh_value() {
    let (value, removal) = EntryRef::fresh(vec![9u8], stored("a")).delete_if_expired();
    assert_eq!(value, Some("a".to_string()));
    assert_eq!(removal, None);
}

#[test]
fn delete_if_expired_asks_for_the_removal_of_an_expired_entry() {
    let (value, removal) = EntryRef::expired(vec![9u8, 8], stored("a")).delete_if_expired();
    assert_eq!(value, None);
    assert_eq!(removal, Some(vec![9u8, 8]));
}

#[test]
fn delete_if_expired_does_nothing_for_a_missing_entry() {
    let (value, removal) = EntryRef::<String>::missing(vec![9u8]).delete_if_expired();
    assert_eq!(value, None);
    assert_eq!(removal, None);
}

#[test]
fn typed_keeps_the_state_and_replaces_the_value() {
    let fresh = EntryRef::fresh(vec![1u8], stored("41")).typed(Some(41u32));
    assert_eq!(fresh.key, vec![1u8]);
    assert!(matches!(fresh.state, State::Fresh(ref e) if e.value == 41 && e.expires_at == at(100)));
    let expired = EntryRef::expired(vec![1u8], stored("42")).typed(Some(42u32));
    assert!(matches!(expired.state, State::Expired(ref e) if e.value == 42));
}

#[test]
fn typed_without_a_value_is_missing() {
    let fresh = EntryRef::fresh(vec![1u8], stored("x")).typed::<u32>(None);
    assert_eq!(fresh.key, vec![1u8]);
    assert!(matches!(fresh.state, State::Missing));
    let expired = EntryRef::expired(vec![1u8], stored("x")).typed::<u32>(None);
    assert!(matches!(expired.state, State::Missing));
    let missing = EntryRef::<String>::missing(vec![1u8]).typed(Some(1u32));
    assert!(matches!(missing.state, State::Missing));
}

#[test]
fn value_looks_at_the_value_without_taking_it() {
    let fresh = EntryRef::fresh(vec![1u8], stored("a"));
    assert_eq!(fresh.value(), Some(&"a".to_string()));
    assert_eq!(fresh.get(), Some("a".to_string()));
    let expired = EntryRef::expired(vec![1u8], stored("b"));
    assert_eq!(expired.value(), Some(&"b".to_string()));
    let missing: EntryRef<String> = EntryRef::missing(vec![1u8]);
    assert_eq!(missing.value(), None);
}
