//! The state of a looked-up entry, and the reference that carries it.
use vstd::prelude::*;
use crate::entry::{expired, StoredEntry};
use crate::instant::Timestamp;

verus! {

/// The state of an entry at the time of a lookup.
#[derive(Debug)]
pub enum State<T> {
    /// The entry is there and can be used.
    Fresh(StoredEntry<T>),
    /// The entry is there, but past its expiry.  Its value can still be
    /// taken; the entry is due for removal.
    Expired(StoredEntry<T>),
    /// There is no entry, or none that could be decoded.
    Missing,
}

/// The state at `now` of what a lookup found.
pub open spec fn resolve<T>(entry: Option<StoredEntry<T>>, now: Timestamp) -> State<T> {
    match entry {
        None => State::Missing,
        Some(stored) => if expired(stored.expires_at, now) {
            State::Expired(stored)
        } else {
            State::Fresh(stored)
        },
    }
}

/// A state with its value replaced by `value`; missing where there is no value.
pub open spec fn with_value<T, U>(state: State<T>, value: Option<U>) -> State<U> {
    match (state, value) {
        (State::Fresh(stored), Some(v)) => State::Fresh(
            StoredEntry { expires_at: stored.expires_at, value: v },
        ),
        (State::Expired(stored), Some(v)) => State::Expired(
            StoredEntry { expires_at: stored.expires_at, value: v },
        ),
        _ => State::Missing,
    }
}

/// The value that a state holds, fresh or expired.
pub open spec fn held<T>(state: State<T>) -> Option<T> {
    match state {
        State::Fresh(stored) => Some(stored.value),
        State::Expired(stored) => Some(stored.value),
        State::Missing => None,
    }
}

/// The value that is still good: that of a fresh entry.
pub open spec fn kept<T>(state: State<T>) -> Option<T> {
    match state {
        State::Fresh(stored) => Some(stored.value),
        _ => None,
    }
}

/// Whether the entry is to be deleted: it is there and expired.
pub open spec fn dropped<T>(state: State<T>) -> bool {
    state is Expired
}

/// A looked-up entry: the store key it was looked up under, and its state.
#[derive(Debug)]
pub struct EntryRef<T> {
    /// The store key of the entry.
    pub key: Vec<u8>,
    /// The state of the entry.
    pub state: State<T>,
}

impl<T> EntryRef<T> {
    /// A reference to a fresh entry.
    pub fn fresh(key: Vec<u8>, stored: StoredEntry<T>) -> (r: Self)
        ensures
            r.key == key,
            r.state == State::Fresh(stored),
    {
        EntryRef { key, state: State::Fresh(stored) }
    }

    /// A reference to an expired entry.
    pub fn expired(key: Vec<u8>, stored: StoredEntry<T>) -> (r: Self)
        ensures
            r.key == key,
            r.state == State::Expired(stored),
    {
        EntryRef { key, state: State::Expired(stored) }
    }

    /// A reference to a missing entry.
    pub fn missing(key: Vec<u8>) -> (r: Self)
        ensures
            r.key == key,
            r.state == State::<T>::Missing,
    {
        EntryRef { key, state: State::Missing }
    }

    /// A reference to what a lookup found, judged at `now`: missing where
    /// nothing was found, expired once `now` has reached the expiry, fresh
    /// before that.
    pub fn resolved(key: Vec<u8>, entry: Option<StoredEntry<T>>, now: &Timestamp) -> (r: Self)
        ensures
            r.key == key,
            r.state == resolve(entry, *now),
    {
        match entry {
            None => EntryRef::missing(key),
            Some(stored) => if stored.is_expired(now) {
                EntryRef::expired(key, stored)
            } else {
                EntryRef::fresh(key, stored)
            },
        }
    }

    /// A look at the value, whether the entry is fresh or expired.
    pub fn value(&self) -> (r: Option<&T>)
        ensures
            match r {
                Some(value) => held(self.state) == Some(*value),
                None => held(self.state) is None,
            },
    {
        match &self.state {
            State::Fresh(stored) => Some(&stored.value),
            State::Expired(stored) => Some(&stored.value),
            State::Missing => None,
        }
    }

    /// The value, whether the entry is fresh or expired.
    pub fn get(self) -> (r: Option<T>)
        ensures
            r == held(self.state),
    {
        match self.state {
            State::Fresh(stored) => Some(stored.value),
            State::Expired(stored) => Some(stored.value),
            State::Missing => None,
        }
    }

    /// The value of a fresh entry; for an expired entry no value, and the
    /// store key that the caller is to delete; for a missing entry neither.
    pub fn delete_if_expired(self) -> (r: (Option<T>, Option<Vec<u8>>))
        ensures
            r.0 == kept(self.state),
            r.1 == if dropped(self.state) {
                Some(self.key)
            } else {
                None
            },
    {
        match self.state {
            State::Fresh(stored) => (Some(stored.value), None),
            State::Expired(_) => (None, Some(self.key)),
            State::Missing => (None, None),
        }
    }

    /// The same reference with the value that the caller decoded from the
    /// stored one.  Where the caller could decode none, the entry counts as
    /// missing, whatever its state was.
    pub fn typed<U>(self, value: Option<U>) -> (r: EntryRef<U>)
        ensures
            r.key == self.key,
            r.state == with_value(self.state, value),
    {
        let state: State<U> = match (self.state, value) {
            (State::Fresh(stored), Some(v)) => State::Fresh(
                StoredEntry { expires_at: stored.expires_at, value: v },
            ),
            (State::Expired(stored), Some(v)) => State::Expired(
                StoredEntry { expires_at: stored.expires_at, value: v },
            ),
            _ => State::Missing,
        };
        EntryRef { key: self.key, state }
    }
}

} // verus!
