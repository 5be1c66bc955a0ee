use futures_cache::{Flights, Role};

#[test]
fn new_registry_is_empty() {
    let flights: Flights<u32> = Flights::new();
    assert!(flights.is_empty());
    assert_eq!(flights.signal(b"k"), None);
}

#[test]
fn first_caller_leads_and_later_callers_wait() {
    let mut flights: Flights<u32> = Flights::new();
    assert!(matches!(flights.enter(b"k", 1), Role::Leader));
    assert!(matches!(flights.enter(b"k", 2), Role::Waiter(2)));
    assert!(matches!(flights.enter(b"k", 3), Role::Waiter(3)));
    assert_eq!(flights.signal(b"k"), Some(&1));
    assert!(!flights.is_empty());
}

#[test]
fn keys_are_in_flight_independently() {
    let mut flights: Flights<&str> = Flights::new();
    assert!(matches!(flights.enter(b"a", "first"), Role::Leader));
    assert!(matches!(flights.enter(b"b", "second"), Role::Leader));
    assert!(matches!(flights.enter(b"", "third"), Role::Leader));
    assert!(!flights.is_empty());
    assert_eq!(flights.signal(b"a"), Some(&"first"));
    assert_eq!(flights.signal(b"b"), Some(&"second"));
    assert_eq!(flights.signal(b""), Some(&"third"));
    assert_eq!(flights.signal(b"ab"), None);
}

#[test]
fn clear_hands_back_the_signal_and_frees_the_key() {
    let mut flights: Flights<u32> = Flights::new();
    flights.enter(b"a", 1);
    flights.enter(b"b", 2);
    flights.enter(b"c", 3);
    assert_eq!(flights.clear(b"b"), Some(2));
    assert!(!flights.is_empty());
    assert_eq!(flights.signal(b"b"), None);
    assert_eq!(flights.signal(b"a"), Some(&1));
    assert_eq!(flights.signal(b"c"), Some(&3));
    assert_eq!(flights.clear(b"b"), None);
    assert_eq!(flights.clear(b"a"), Some(1));
    assert_eq!(flights.clear(b"c"), Some(3));
    assert!(flights.is_empty());
}

#[test]
fn caller_after_the_clearing_leads_again() {
    let mut flights: Flights<u32> = Flights::new();
    assert!(matches!(flights.enter(b"k", 1), Role::Leader));
    assert_eq!(flights.clear(b"k"), Some(1));
    assert!(matches!(flights.enter(b"k", 2), Role::Leader));
    assert_eq!(flights.signal(b"k"), Some(&2));
    assert_eq!(flights.clear(b"k"), Some(2));
    assert!(flights.is_empty());
}
