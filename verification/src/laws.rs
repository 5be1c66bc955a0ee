//! What holds of the cache as a whole.
//!
//! The store is modelled as a map from store keys to stored bytes.  A write
//! puts a pair into the map, a removal takes a key out of it, and a lookup
//! finds what the map holds under a key.  Over that model the laws below
//! relate the operations of the cache to one another.
use vstd::prelude::*;
use crate::cache::{doomed, entry_for, fetched, probed, removal_of, sweep, Reason};
use crate::flight::{entered, leaders, leads, signals_held};
use crate::entry::{decoded, decoded_expiry, expired, lemma_decode_of_encode, StoredEntry};
use crate::instant::{lemma_plus_is_sum, lemma_precedes_is_order, Duration, Timestamp};
use crate::key::{key_frame, lemma_key_frame_injective};
use crate::state::{dropped, held, kept, resolve, State};

verus! {

/// What a lookup under `key` finds in `store`.
pub open spec fn lookup(store: Map<Seq<u8>, Seq<u8>>, key: Seq<u8>) -> Option<Seq<u8>> {
    if store.contains_key(key) {
        Some(store[key])
    } else {
        None
    }
}

/// A value stored with a positive time-to-live is found fresh, with the
/// value that was stored, at the instant of the write and at every instant
/// after it that lies before the expiry.
pub proof fn law_fresh_after_insert(
    store: Map<Seq<u8>, Seq<u8>>,
    key: Seq<u8>,
    age: Duration,
    payload: Seq<u8>,
    now: Timestamp,
    at: Timestamp,
)
    requires
        now.wf(),
        at.wf(),
        age.length() > 0,
        entry_for(age, payload, now) is Some,
        now.since_epoch() <= at.since_epoch() < now.since_epoch() + age.length(),
    ensures
        resolve(fetched(lookup(store.insert(key, entry_for(age, payload, now).unwrap()), key)), at)
            == State::Fresh(StoredEntry { expires_at: now.plus(age).unwrap(), value: payload }),
        resolve(probed(lookup(store.insert(key, entry_for(age, payload, now).unwrap()), key)), at)
            == State::Fresh(StoredEntry { expires_at: now.plus(age).unwrap(), value: () }),
        resolve(fetched(lookup(store.insert(key, entry_for(age, payload, now).unwrap()), key)), now)
            == State::Fresh(StoredEntry { expires_at: now.plus(age).unwrap(), value: payload }),
{
    let expires_at = now.plus(age).unwrap();
    lemma_plus_is_sum(now, age);
    lemma_decode_of_encode(expires_at, payload);
    lemma_precedes_is_order(at, expires_at);
    lemma_precedes_is_order(now, expires_at);
}

/// Once the clock has reached the expiry, the value is found expired, and it
/// is still the value that was stored; the reference then gives no value and
/// asks for the removal of the key; and after that removal the key is found
/// missing.
pub proof fn law_expired_after_ttl(
    store: Map<Seq<u8>, Seq<u8>>,
    key: Seq<u8>,
    age: Duration,
    payload: Seq<u8>,
    now: Timestamp,
    at: Timestamp,
)
    requires
        now.wf(),
        at.wf(),
        entry_for(age, payload, now) is Some,
        now.since_epoch() + age.length() <= at.since_epoch(),
    ensures
        ({
            let written = store.insert(key, entry_for(age, payload, now).unwrap());
            let state = resolve(fetched(lookup(written, key)), at);
            &&& state == State::Expired(
                StoredEntry { expires_at: now.plus(age).unwrap(), value: payload },
            )
            &&& held(state) == Some(payload)
            &&& kept(state) is None
            &&& dropped(state)
            &&& resolve(fetched(lookup(written.remove(key), key)), at) == State::<
                Seq<u8>,
            >::Missing
        }),
{
    let expires_at = now.plus(age).unwrap();
    lemma_plus_is_sum(now, age);
    lemma_decode_of_encode(expires_at, payload);
    lemma_precedes_is_order(at, expires_at);
}

/// Namespaces do not interfere: a write or a removal under a key of one
/// namespace leaves what is found under every key of another namespace, and
/// under every key outside all namespaces, as it was.
pub proof fn law_namespaces_independent(
    store: Map<Seq<u8>, Seq<u8>>,
    a: Option<Seq<u8>>,
    x: Seq<u8>,
    b: Option<Seq<u8>>,
    y: Seq<u8>,
    value: Seq<u8>,
)
    requires
        a != b,
        a matches Some(name) ==> name.len() <= u64::MAX,
        b matches Some(name) ==> name.len() <= u64::MAX,
    ensures
        key_frame(a, x) != key_frame(b, y),
        lookup(store.insert(key_frame(a, x), value), key_frame(b, y)) == lookup(
            store,
            key_frame(b, y),
        ),
        lookup(store.remove(key_frame(a, x)), key_frame(b, y)) == lookup(store, key_frame(b, y)),
{
    if key_frame(a, x) == key_frame(b, y) {
        lemma_key_frame_injective(a, x, b, y);
    }
}

/// Within one namespace, different keys have different store keys, so a
/// write under one key leaves what is found under another as it was.
pub proof fn law_keys_independent(
    store: Map<Seq<u8>, Seq<u8>>,
    ns: Option<Seq<u8>>,
    x: Seq<u8>,
    y: Seq<u8>,
    value: Seq<u8>,
)
    requires
        x != y,
        ns matches Some(name) ==> name.len() <= u64::MAX,
    ensures
        key_frame(ns, x) != key_frame(ns, y),
        lookup(store.insert(key_frame(ns, x), value), key_frame(ns, y)) == lookup(
            store,
            key_frame(ns, y),
        ),
{
    if key_frame(ns, x) == key_frame(ns, y) {
        lemma_key_frame_injective(ns, x, ns, y);
    }
}

/// Bytes that are no entry are found missing, by the expiry alone and with
/// the value, at every instant and whatever else the store holds.
pub proof fn law_malformed_is_missing(
    store: Map<Seq<u8>, Seq<u8>>,
    key: Seq<u8>,
    bytes: Seq<u8>,
    at: Timestamp,
)
    requires
        decoded_expiry(bytes) is None,
    ensures
        resolve(probed(lookup(store.insert(key, bytes), key)), at) == State::<()>::Missing,
        resolve(fetched(lookup(store.insert(key, bytes), key)), at) == State::<Seq<u8>>::Missing,
{
}

/// A key under which the store holds nothing is found missing.
pub proof fn law_absent_is_missing(store: Map<Seq<u8>, Seq<u8>>, key: Seq<u8>, at: Timestamp)
    requires
        !store.contains_key(key),
    ensures
        resolve(probed(lookup(store, key)), at) == State::<()>::Missing,
        resolve(fetched(lookup(store, key)), at) == State::<Seq<u8>>::Missing,
{
}

/// A cleanup removes a stored pair exactly if a lookup at the same instant
/// would not find it fresh: what is corrupt, which a lookup finds missing,
/// and what is expired.
pub proof fn law_cleanup_spares_the_fresh(pair: (Vec<u8>, Vec<u8>), at: Timestamp)
    ensures
        removal_of(pair, at) is None <==> resolve(probed(Some(pair.1@)), at) is Fresh,
        removal_of(pair, at) matches Some((key, Reason::Corrupt)) ==> key == pair.0@ && resolve(
            probed(Some(pair.1@)),
            at,
        ) is Missing,
        removal_of(pair, at) matches Some((key, Reason::Expired)) ==> key == pair.0@ && resolve(
            probed(Some(pair.1@)),
            at,
        ) is Expired,
{
}

/// `pairs` is a scan of `store`: every pair is held by the store, and every
/// key of the store is met.
pub open spec fn scans(pairs: Seq<(Vec<u8>, Vec<u8>)>, store: Map<Seq<u8>, Seq<u8>>) -> bool {
    &&& forall|i: int|
        0 <= i < pairs.len() ==> lookup(store, (#[trigger] pairs[i]).0@) == Some(pairs[i].1@)
    &&& forall|key: Seq<u8>| #[trigger]
        store.contains_key(key) ==> exists|i: int|
            0 <= i < pairs.len() && (#[trigger] pairs[i]).0@ == key
}

/// Whether `removals` names `key`.
pub open spec fn names(removals: Seq<(Seq<u8>, Reason)>, key: Seq<u8>) -> bool {
    exists|j: int| 0 <= j < removals.len() && (#[trigger] removals[j]).0 == key
}

/// The store after `removals` have been carried out.
pub open spec fn cleaned(store: Map<Seq<u8>, Seq<u8>>, removals: Seq<(Seq<u8>, Reason)>) -> Map<
    Seq<u8>,
    Seq<u8>,
> {
    Map::new(
        |key: Seq<u8>| store.contains_key(key) && !names(removals, key),
        |key: Seq<u8>| store[key],
    )
}

/// A cleanup names a key exactly if the scan met it with a value that must go.
pub proof fn lemma_sweep_names(pairs: Seq<(Vec<u8>, Vec<u8>)>, now: Timestamp, key: Seq<u8>)
    ensures
        names(sweep(pairs, now), key) <==> exists|i: int|
            0 <= i < pairs.len() && (#[trigger] pairs[i]).0@ == key && doomed(pairs[i].1@, now)
                 is Some,
    decreases pairs.len(),
{
    if pairs.len() > 0 {
        let rest = pairs.drop_last();
        let last = pairs.last();
        let before = sweep(rest, now);
        let after = sweep(pairs, now);
        lemma_sweep_names(rest, now, key);
        assert(after == match removal_of(last, now) {
            Some(removal) => before + seq![removal],
            None => before,
        });
        if names(after, key) {
            let j = choose|j: int| 0 <= j < after.len() && (#[trigger] after[j]).0 == key;
            if j < before.len() {
                assert(before[j].0 == key);
                let i = choose|i: int|
                    0 <= i < rest.len() && (#[trigger] rest[i]).0@ == key && doomed(
                        rest[i].1@,
                        now,
                    ) is Some;
                assert(pairs[i] == rest[i]);
            } else {
                assert(pairs[pairs.len() - 1] == last);
            }
        }
        if exists|i: int|
            0 <= i < pairs.len() && (#[trigger] pairs[i]).0@ == key && doomed(pairs[i].1@, now)
                 is Some {
            let i = choose|i: int|
                0 <= i < pairs.len() && (#[trigger] pairs[i]).0@ == key && doomed(
                    pairs[i].1@,
                    now,
                ) is Some;
            if i < rest.len() {
                assert(rest[i] == pairs[i]);
                let j = choose|j: int| 0 <= j < before.len() && (#[trigger] before[j]).0 == key;
                assert(after[j] == before[j]);
            } else {
                assert(after[after.len() - 1].0 == key);
            }
        }
    }
}

/// After a cleanup has been carried out on the store that was scanned, a
/// lookup at the instant of the cleanup finds exactly what was fresh, as it
/// was: every entry that was expired and every value that was no entry is
/// gone, and nothing else is.
pub proof fn law_cleanup_leaves_the_fresh(
    store: Map<Seq<u8>, Seq<u8>>,
    pairs: Seq<(Vec<u8>, Vec<u8>)>,
    now: Timestamp,
    key: Seq<u8>,
)
    requires
        scans(pairs, store),
    ensures
        lookup(cleaned(store, sweep(pairs, now)), key) == if resolve(
            probed(lookup(store, key)),
            now,
        ) is Fresh {
            lookup(store, key)
        } else {
            None
        },
{
    lemma_sweep_names(pairs, now, key);
    if store.contains_key(key) {
        let i = choose|i: int| 0 <= i < pairs.len() && (#[trigger] pairs[i]).0@ == key;
        assert(lookup(store, pairs[i].0@) == Some(pairs[i].1@));
        if names(sweep(pairs, now), key) {
            let d = choose|d: int|
                0 <= d < pairs.len() && (#[trigger] pairs[d]).0@ == key && doomed(
                    pairs[d].1@,
                    now,
                ) is Some;
            assert(lookup(store, pairs[d].0@) == Some(pairs[d].1@));
        }
    }
}

/// Of the callers that enter a key one after another while nobody clears
/// it, exactly one leads where the key was not in flight and there is a
/// caller at all, and none leads otherwise.
pub proof fn law_one_leader<S>(flights: Map<Seq<u8>, S>, key: Seq<u8>, signals: Seq<S>)
    ensures
        leaders(flights, key, signals) == if leads(flights, key) && signals.len() > 0 {
            1nat
        } else {
            0nat
        },
    decreases signals.len(),
{
    if signals.len() > 0 {
        law_one_leader(entered(flights, key, signals[0]), key, signals.drop_first());
    }
}

/// All callers that enter a key one after another while nobody clears it
/// go on with one and the same signal: the one that the registry held for
/// the key, or, where the key was not in flight, that of the first caller,
/// who leads.  What the leader tells through that signal is told to all.
pub proof fn law_one_signal<S>(flights: Map<Seq<u8>, S>, key: Seq<u8>, signals: Seq<S>)
    ensures
        signals_held(flights, key, signals).len() == signals.len(),
        forall|i: int|
            0 <= i < signals.len() ==> #[trigger] signals_held(flights, key, signals)[i] == (
            if leads(flights, key) {
                signals[0]
            } else {
                flights[key]
            }),
    decreases signals.len(),
{
    if signals.len() > 0 {
        let next = entered(flights, key, signals[0]);
        let rest = signals.drop_first();
        law_one_signal(next, key, rest);
        assert forall|i: int| 0 <= i < signals.len() implies #[trigger] signals_held(
            flights,
            key,
            signals,
        )[i] == next[key] by {
            if i > 0 {
                assert(signals_held(flights, key, signals)[i] == signals_held(next, key, rest)[i
                    - 1]);
            }
        }
    }
}

/// Once a key has been cleared, the next caller that enters it leads.
pub proof fn law_leader_after_clearing<S>(flights: Map<Seq<u8>, S>, key: Seq<u8>)
    ensures
        leads(flights.remove(key), key),
{
}

/// Judged by the expiry alone or with the whole entry, a stored value is
/// in the same state: fresh, expired or missing in both.
pub proof fn law_test_agrees_with_get(found: Option<Seq<u8>>, at: Timestamp)
    ensures
        resolve(probed(found), at) is Fresh <==> resolve(fetched(found), at) is Fresh,
        resolve(probed(found), at) is Expired <==> resolve(fetched(found), at) is Expired,
        resolve(probed(found), at) is Missing <==> resolve(fetched(found), at) is Missing,
{
}

} // verus!
