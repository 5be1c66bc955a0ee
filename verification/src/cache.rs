//! The cache: what to read, what to write and what to delete.
//!
//! The store itself stays with the caller.  Every operation here takes what
//! the store returned, decides, and hands back what the caller is to do with
//! the store: a key to read, a pair to write, keys to delete.
use std::sync::Arc;
use vstd::prelude::*;
use vstd::slice::slice_to_vec;
use crate::dynamic::{canonical, canonical_bytes, json_from_cbor, json_of_cbor};
use crate::entry::{
    decode_full, decode_partial, decoded, decoded_expiry, encode, encoded, expired, StoredEntry,
};
use crate::error::Error;
use crate::flight::{entered, leads, Flights, Role};
use crate::instant::{Duration, Timestamp};
use crate::key::{frame_key, key_frame, name_bytes, namespace_bytes};
use crate::state::{resolve, EntryRef, State};

verus! {

/// A cache over one store.  It can be cloned cheaply and narrowed to a
/// namespace; all clones and namespaces work on the same store.
#[derive(Clone)]
pub struct Cache {
    ns: Option<Arc<String>>,
}

/// A pair that the caller is to write to the store.
#[derive(Debug)]
pub struct Put {
    /// The store key.
    pub key: Vec<u8>,
    /// The bytes of the entry.
    pub value: Vec<u8>,
}

/// Why an entry is removed from the store.
#[derive(Clone, Copy, Debug, PartialEq, Eq, Structural)]
pub enum Reason {
    /// The bytes stored are no entry.
    Corrupt,
    /// The entry is past its expiry.
    Expired,
}

/// A key that the caller is to delete from the store, and why.
#[derive(Debug)]
pub struct Removal {
    /// The store key.
    pub key: Vec<u8>,
    /// Why the entry goes.
    pub reason: Reason,
}

/// An entry with its key and its value as JSON values, for listings.
#[derive(Debug)]
pub struct JsonEntry {
    /// The key of the entry.
    pub key: serde_json::Value,
    /// The stored entry.
    pub stored: StoredEntry<serde_json::Value>,
}

/// How a memoized call goes on after the lookup.
#[derive(Debug)]
pub enum WrapStep<T, S> {
    /// The entry is fresh: this is its value, and nothing is computed.
    Hit(T),
    /// The entry is expired or missing and nobody computes it yet: the
    /// caller computes the value under this store key, for itself and for
    /// everyone who comes to wait.
    Lead(Vec<u8>),
    /// The entry is expired or missing and somebody computes it already:
    /// the caller waits on the signal that the registry holds for this store
    /// key.  Its own signal comes back unused.
    Wait(Vec<u8>, S),
}

/// How a memoized call ends after the computation.
#[derive(Debug)]
pub enum WrapEnd<F> {
    /// The computation gave a value: the caller writes this pair, then
    /// hands the value to everyone who waits for it.
    Written(Put),
    /// The computation failed: nothing is written, and everyone who waits
    /// gets this failure.
    Failed(F),
    /// The computation gave a value that cannot be stored: nothing is written.
    Rejected(Error),
}

/// What a lookup found, as plain bytes.
pub open spec fn found_bytes(found: Option<Vec<u8>>) -> Option<Seq<u8>> {
    match found {
        Some(bytes) => Some(bytes@),
        None => None,
    }
}

/// The expiry of what a lookup found, as an entry without a value.
pub open spec fn probed(found: Option<Seq<u8>>) -> Option<StoredEntry<()>> {
    match found {
        Some(bytes) => match decoded_expiry(bytes) {
            Some(expires_at) => Some(StoredEntry { expires_at, value: () }),
            None => None,
        },
        None => None,
    }
}

/// The entry that a lookup found.
pub open spec fn fetched(found: Option<Seq<u8>>) -> Option<StoredEntry<Seq<u8>>> {
    match found {
        Some(bytes) => decoded(bytes),
        None => None,
    }
}

/// A state over byte vectors, as a state over byte sequences.
pub open spec fn state_view(state: State<Vec<u8>>) -> State<Seq<u8>> {
    match state {
        State::Fresh(stored) => State::Fresh(
            StoredEntry { expires_at: stored.expires_at, value: stored.value@ },
        ),
        State::Expired(stored) => State::Expired(
            StoredEntry { expires_at: stored.expires_at, value: stored.value@ },
        ),
        State::Missing => State::Missing,
    }
}

/// The bytes stored at `now` for a payload that is to live for `age`.
pub open spec fn entry_for(age: Duration, payload: Seq<u8>, now: Timestamp) -> Option<Seq<u8>> {
    match now.plus(age) {
        Some(expires_at) => encoded(expires_at, payload),
        None => None,
    }
}

/// Whether the bytes stored under a key must go at `now`, and why: they are
/// no entry, or the entry is expired.
pub open spec fn doomed(value: Seq<u8>, now: Timestamp) -> Option<Reason> {
    match decoded_expiry(value) {
        None => Some(Reason::Corrupt),
        Some(expires_at) => if expired(expires_at, now) {
            Some(Reason::Expired)
        } else {
            None
        },
    }
}

/// The removal that a stored pair calls for at `now`, if any.
pub open spec fn removal_of(pair: (Vec<u8>, Vec<u8>), now: Timestamp) -> Option<
    (Seq<u8>, Reason),
> {
    match doomed(pair.1@, now) {
        Some(reason) => Some((pair.0@, reason)),
        None => None,
    }
}

/// The removals that a scan of `pairs` calls for at `now`, in the order of the scan.
pub open spec fn sweep(pairs: Seq<(Vec<u8>, Vec<u8>)>, now: Timestamp) -> Seq<(Seq<u8>, Reason)> {
    pairs.filter_map(|pair: (Vec<u8>, Vec<u8>)| removal_of(pair, now))
}

/// Removals as plain values.
pub open spec fn removals_view(removals: Seq<Removal>) -> Seq<(Seq<u8>, Reason)> {
    removals.map_values(|removal: Removal| (removal.key@, removal.reason))
}

/// The listed form of a stored pair: the pair is listed where its key reads
/// as JSON, its value is an entry, and the payload of that entry reads as
/// JSON; it is listed with those two JSON values and the entry's expiry.
pub open spec fn listed(pair: (Vec<u8>, Vec<u8>)) -> Option<JsonEntry> {
    match (json_of_cbor(pair.0@), decoded(pair.1@)) {
        (Some(key), Some(stored)) => match json_of_cbor(stored.value) {
            Some(value) => Some(
                JsonEntry { key, stored: StoredEntry { expires_at: stored.expires_at, value } },
            ),
            None => None,
        },
        _ => None,
    }
}

/// The listing of a scan: the listed forms of its pairs, in the order of the scan.
pub open spec fn listing(pairs: Seq<(Vec<u8>, Vec<u8>)>) -> Seq<JsonEntry> {
    pairs.filter_map(|pair: (Vec<u8>, Vec<u8>)| listed(pair))
}

impl Cache {
    /// The namespace of the cache, as characters.
    pub closed spec fn namespace(&self) -> Option<Seq<char>> {
        match self.ns {
            Some(name) => Some(name@),
            None => None,
        }
    }

    /// The store key of the encoded key `key` as this cache writes it.
    pub open spec fn store_key(&self, key: Seq<u8>) -> Seq<u8> {
        key_frame(name_bytes(self.namespace()), key)
    }

    /// A cache outside every namespace.
    pub fn new() -> (r: Cache)
        ensures
            r.namespace() is None,
    {
        Cache { ns: None }
    }

    /// A cache over the store whose scan gave `pairs`, with the removals
    /// that the scan calls for at the current instant: every pair that is no
    /// entry or is expired.
    pub fn load(pairs: &Vec<(Vec<u8>, Vec<u8>)>) -> (r: (Cache, Vec<Removal>))
        ensures
            r.0.namespace() is None,
            exists|now: Timestamp| now.wf() && removals_view(r.1@) == #[trigger] sweep(pairs@, now),
    {
        let now = Timestamp::now();
        Cache::load_at(pairs, &now)
    }

    /// A cache over the store whose scan gave `pairs`, with the removals
    /// that the scan calls for at `now`: in the order of the scan, every
    /// pair whose value is no entry, and every entry that is expired.  The
    /// cache is outside every namespace.
    pub fn load_at(pairs: &Vec<(Vec<u8>, Vec<u8>)>, now: &Timestamp) -> (r: (Cache, Vec<Removal>))
        ensures
            r.0.namespace() is None,
            removals_view(r.1@) == sweep(pairs@, *now),
    {
        let cache = Cache::new();
        let removals = cache.cleanup_at(pairs, now);
        (cache, removals)
    }

    /// A cache over the same store that keeps its entries in namespace `ns`.
    pub fn namespaced(&self, ns: &str) -> (r: Cache)
        ensures
            r.namespace() == Some(ns@),
    {
        Cache { ns: Some(Arc::new(ns.to_owned())) }
    }

    /// The store key of the encoded key `key` in the namespace `ns`,
    /// whatever the namespace of this cache.  The key is brought to its
    /// canonical form first, so that equal keys get equal store keys in
    /// whatever order their maps were written.  Fails with `Cbor` exactly
    /// where the key has no canonical form.
    pub fn key_with_ns(&self, ns: Option<&str>, key: &[u8]) -> (r: Result<
        Vec<u8>,
        Error,
    >)
        ensures
            match r {
                Ok(framed) => canonical(key@) is Some && framed@ == key_frame(
                    namespace_bytes(ns),
                    canonical(key@).unwrap(),
                ),
                Err(e) => e is Cbor && canonical(key@) is None,
            },
    {
        match canonical_bytes(key) {
            Ok(encoded_key) => {
                Ok(frame_key(ns, encoded_key.as_slice()))
            },
            Err(e) => Err(e),
        }
    }

    /// The store key of the encoded key `key` in the namespace of this
    /// cache, with the key brought to its canonical form first.  Fails with
    /// `Cbor` exactly where the key has no canonical form.
    pub fn key(&self, key: &[u8]) -> (r: Result<Vec<u8>, Error>)
        ensures
            match r {
                Ok(framed) => canonical(key@) is Some && framed@ == self.store_key(
                    canonical(key@).unwrap(),
                ),
                Err(e) => e is Cbor && canonical(key@) is None,
            },
    {
        match canonical_bytes(key) {
            Ok(encoded_key) => {
                Ok(self.frame(encoded_key.as_slice()))
            },
            Err(e) => Err(e),
        }
    }

    /// The store key of the encoded key `key` in the namespace of this
    /// cache, with the key taken as it is.
    pub fn frame(&self, key: &[u8]) -> (r: Vec<u8>)
        ensures
            r@ == self.store_key(key@),
    {
        match &self.ns {
            None => frame_key(None, key),
            Some(name) => frame_key(Some(name.as_str()), key),
        }
    }

    /// The store key to delete for the encoded key `key` in the namespace
    /// `ns`: the one that `key_with_ns` gives.
    pub fn delete_with_ns(&self, ns: Option<&str>, key: &[u8]) -> (r: Result<
        Vec<u8>,
        Error,
    >)
        ensures
            match r {
                Ok(framed) => canonical(key@) is Some && framed@ == key_frame(
                    namespace_bytes(ns),
                    canonical(key@).unwrap(),
                ),
                Err(e) => e is Cbor && canonical(key@) is None,
            },
    {
        self.key_with_ns(ns, key)
    }

    /// The pair to write so that `payload` is stored under the encoded key
    /// `key` and lives for `age` from the current instant.
    ///
    /// Fails with `Cbor` exactly where the key has no canonical form;
    /// otherwise with `EmptyValue` exactly on an empty payload; otherwise
    /// with `Expiry` where the expiry cannot be written.
    pub fn insert(&self, key: &[u8], age: &Duration, payload: &[u8]) -> (r: Result<
        Put,
        Error,
    >)
        ensures
            match r {
                Ok(put) => canonical(key@) is Some && put.key@ == self.store_key(
                    canonical(key@).unwrap(),
                ) && exists|now: Timestamp|
                    now.wf() && Some(put.value@) == #[trigger] entry_for(*age, payload@, now),
                Err(Error::EmptyValue) => canonical(key@) is Some && payload@.len() == 0,
                Err(Error::Expiry) => canonical(key@) is Some && payload@.len() > 0 && exists|
                    now: Timestamp,
                |
                    now.wf() && #[trigger] entry_for(*age, payload@, now) is None,
                Err(Error::Cbor(_)) => canonical(key@) is None,
            },
    {
        let framed = match self.key(key) {
            Ok(framed) => framed,
            Err(e) => { return Err(e); },
        };
        let now = Timestamp::now();
        self.inner_insert(framed, age, payload, &now)
    }

    /// The pair to write so that `payload` is stored under the store key
    /// `key` and expires `age` after `now`.
    ///
    /// Fails with `EmptyValue` on an empty payload, and with `Expiry` where
    /// the payload is in order and the expiry cannot be written.
    pub fn inner_insert(&self, key: Vec<u8>, age: &Duration, payload: &[u8], now: &Timestamp) -> (r:
        Result<Put, Error>)
        ensures
            match r {
                Ok(put) => put.key == key && entry_for(*age, payload@, *now) == Some(put.value@),
                Err(Error::EmptyValue) => payload@.len() == 0,
                Err(Error::Expiry) => payload@.len() > 0 && entry_for(*age, payload@, *now) is None,
                Err(Error::Cbor(_)) => false,
            },
    {
        if payload.len() == 0 {
            return Err(Error::EmptyValue);
        }
        match now.checked_add(age) {
            Some(expires_at) => match encode(&expires_at, payload) {
                Ok(value) => Ok(Put { key, value }),
                Err(e) => Err(e),
            },
            None => Err(Error::Expiry),
        }
    }

    /// The state, at the current instant, of the entry that the store holds
    /// under `key`, judged by its expiry alone.
    pub fn test(&self, key: Vec<u8>, found: Option<Vec<u8>>) -> (r: EntryRef<()>)
        ensures
            r.key == key,
            exists|now: Timestamp|
                now.wf() && r.state == #[trigger] resolve(probed(found_bytes(found)), now),
    {
        let now = Timestamp::now();
        self.inner_test(key, found, &now)
    }

    /// The state at `now` of the entry that the store holds under `key`,
    /// judged by its expiry alone: missing where the store holds nothing or
    /// no entry, expired once `now` has reached the expiry, fresh before.
    pub fn inner_test(&self, key: Vec<u8>, found: Option<Vec<u8>>, now: &Timestamp) -> (r: EntryRef<
        (),
    >)
        ensures
            r.key == key,
            r.state == resolve(probed(found_bytes(found)), *now),
    {
        let entry: Option<StoredEntry<()>> = match found {
            Some(bytes) => match decode_partial(bytes.as_slice()) {
                Some(partial) => Some(partial.into_stored_entry()),
                None => None,
            },
            None => None,
        };
        EntryRef::resolved(key, entry, now)
    }

    /// The entry that the store holds under `key`, with its state at the
    /// current instant.
    pub fn get(&self, key: Vec<u8>, found: Option<Vec<u8>>) -> (r: EntryRef<Vec<u8>>)
        ensures
            r.key == key,
            exists|now: Timestamp|
                now.wf() && state_view(r.state) == #[trigger] resolve(
                    fetched(found_bytes(found)),
                    now,
                ),
    {
        let now = Timestamp::now();
        self.inner_get(key, found, &now)
    }

    /// The entry that the store holds under `key`, with its state at `now`:
    /// missing where the store holds nothing or no entry, expired once `now`
    /// has reached the expiry, fresh before.  The value is the encoded
    /// payload as it was stored.
    pub fn inner_get(&self, key: Vec<u8>, found: Option<Vec<u8>>, now: &Timestamp) -> (r: EntryRef<
        Vec<u8>,
    >)
        ensures
            r.key == key,
            state_view(r.state) == resolve(fetched(found_bytes(found)), *now),
    {
        let entry: Option<StoredEntry<Vec<u8>>> = match found {
            Some(bytes) => decode_full(bytes.as_slice()),
            None => None,
        };
        EntryRef::resolved(key, entry, now)
    }

    /// The first step of a memoized call, on the entry that the lookup
    /// gave.  A fresh entry ends the call with its value, and the registry
    /// stays as it is.  An expired or a missing entry asks for the
    /// computation: the caller enters the registry under the entry's store
    /// key, and leads or waits as the registry decides.
    pub fn wrap_begin<T, S>(&self, flights: &mut Flights<S>, entry: EntryRef<T>, signal: S) -> (r:
        WrapStep<T, S>)
        requires
            old(flights).wf(),
        ensures
            final(flights).wf(),
            match entry.state {
                State::Fresh(stored) => {
                    &&& r == WrapStep::<T, S>::Hit(stored.value)
                    &&& final(flights)@ == old(flights)@
                },
                _ => {
                    &&& final(flights)@ == entered(old(flights)@, entry.key@, signal)
                    &&& r == if leads(old(flights)@, entry.key@) {
                        WrapStep::<T, S>::Lead(entry.key)
                    } else {
                        WrapStep::<T, S>::Wait(entry.key, signal)
                    }
                },
            },
    {
        match entry.state {
            State::Fresh(stored) => WrapStep::Hit(stored.value),
            _ => match flights.enter(entry.key.as_slice(), signal) {
                Role::Leader => WrapStep::Lead(entry.key),
                Role::Waiter(unused) => WrapStep::Wait(entry.key, unused),
            },
        }
    }

    /// The last step of a memoized call, on what the computation gave, at
    /// the current instant.  A failure is handed on as it is and nothing is
    /// written.
    pub fn wrap_end<F>(&self, key: Vec<u8>, age: &Duration, computed: Result<Vec<u8>, F>) -> (r:
        WrapEnd<F>)
        ensures
            match computed {
                Err(failure) => r == WrapEnd::Failed(failure),
                Ok(payload) => match r {
                    WrapEnd::Written(put) => put.key == key && exists|now: Timestamp|
                        now.wf() && Some(put.value@) == #[trigger] entry_for(*age, payload@, now),
                    WrapEnd::Rejected(e) => (e is EmptyValue <==> payload@.len() == 0) && (e
                         is Expiry <==> payload@.len() > 0) && exists|now: Timestamp|
                        now.wf() && #[trigger] entry_for(*age, payload@, now) is None,
                    WrapEnd::Failed(_) => false,
                },
            },
    {
        let now = Timestamp::now();
        self.wrap_end_at(key, age, computed, &now)
    }

    /// The last step of a memoized call, on what the computation gave, at
    /// `now`.  A failure is handed on as it is and nothing is written.  A
    /// value is stored as `inner_insert` stores it, and rejected where
    /// `inner_insert` fails.
    pub fn wrap_end_at<F>(
        &self,
        key: Vec<u8>,
        age: &Duration,
        computed: Result<Vec<u8>, F>,
        now: &Timestamp,
    ) -> (r: WrapEnd<F>)
        ensures
            match computed {
                Err(failure) => r == WrapEnd::Failed(failure),
                Ok(payload) => match r {
                    WrapEnd::Written(put) => put.key == key && entry_for(*age, payload@, *now)
                        == Some(put.value@),
                    WrapEnd::Rejected(e) => entry_for(*age, payload@, *now) is None && (e
                         is EmptyValue <==> payload@.len() == 0) && (e is Expiry <==> payload@.len()
                        > 0),
                    WrapEnd::Failed(_) => false,
                },
            },
    {
        match computed {
            Err(failure) => WrapEnd::Failed(failure),
            Ok(payload) => match self.inner_insert(key, age, payload.as_slice(), now) {
                Ok(put) => WrapEnd::Written(put),
                Err(e) => WrapEnd::Rejected(e),
            },
        }
    }

    /// The removals that a scan of the store calls for at the current instant.
    pub fn cleanup(&self, pairs: &Vec<(Vec<u8>, Vec<u8>)>) -> (r: Vec<Removal>)
        ensures
            exists|now: Timestamp| now.wf() && removals_view(r@) == #[trigger] sweep(pairs@, now),
    {
        let now = Timestamp::now();
        self.cleanup_at(pairs, &now)
    }

    /// The removals that a scan of the store calls for at `now`: in the
    /// order of the scan, every pair whose value is no entry, and every
    /// entry that is expired.
    pub fn cleanup_at(&self, pairs: &Vec<(Vec<u8>, Vec<u8>)>, now: &Timestamp) -> (r: Vec<Removal>)
        ensures
            removals_view(r@) == sweep(pairs@, *now),
    {
        let mut out: Vec<Removal> = Vec::new();
        let mut i: usize = 0;
        assert(pairs@.take(0) =~= Seq::empty());
        assert(removals_view(out@) =~= Seq::empty());
        while i < pairs.len()
            invariant
                i <= pairs.len(),
                removals_view(out@) == sweep(pairs@.take(i as int), *now),
            decreases pairs.len() - i,
        {
            let pair: &(Vec<u8>, Vec<u8>) = &pairs[i];
            let reason: Option<Reason> = match decode_partial(pair.1.as_slice()) {
                None => Some(Reason::Corrupt),
                Some(partial) => if partial.is_expired(now) {
                    Some(Reason::Expired)
                } else {
                    None
                },
            };
            let ghost before = out@;
            match reason {
                Some(reason) => {
                    let key: Vec<u8> = slice_to_vec(pair.0.as_slice());
                    out.push(Removal { key, reason });
                    assert(removals_view(out@) =~= removals_view(before) + seq![
                        (pairs@[i as int].0@, reason),
                    ]);
                },
                None => {},
            }
            i += 1;
            assert(pairs@.take(i as int).drop_last() =~= pairs@.take(i - 1));
        }
        assert(pairs@.take(i as int) =~= pairs@);
        out
    }

    /// The entries of a scan of the store as JSON values, in the order of
    /// the scan.  A pair whose key does not read as JSON, whose value is no
    /// entry, or whose payload does not read as JSON is left out.
    pub fn list_json(&self, pairs: &Vec<(Vec<u8>, Vec<u8>)>) -> (r: Vec<JsonEntry>)
        ensures
            r@ == listing(pairs@),
    {
        let mut out: Vec<JsonEntry> = Vec::new();
        let mut i: usize = 0;
        assert(pairs@.take(0) =~= Seq::empty());
        while i < pairs.len()
            invariant
                i <= pairs.len(),
                out@ == listing(pairs@.take(i as int)),
            decreases pairs.len() - i,
        {
            let pair: &(Vec<u8>, Vec<u8>) = &pairs[i];
            let ghost before = out@;
            match json_from_cbor(pair.0.as_slice()) {
                Some(key) => match decode_full(pair.1.as_slice()) {
                    Some(stored) => match json_from_cbor(stored.value.as_slice()) {
                        Some(value) => {
                            let expires_at = stored.expires_at;
                            out.push(JsonEntry { key, stored: StoredEntry { expires_at, value } });
                            assert(out@ =~= before + seq![listed(pairs@[i as int]).unwrap()]);
                        },
                        None => {},
                    },
                    None => {},
                },
                None => {},
            }
            i += 1;
            assert(pairs@.take(i as int).drop_last() =~= pairs@.take(i - 1));
        }
        assert(pairs@.take(i as int) =~= pairs@);
        out
    }
}

} // verus!
