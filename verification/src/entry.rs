//! Stored entries: a value together with the instant at which it expires.
//!
//! An entry is written as a map of two pairs, `expires_at` first and `value`
//! second.  The expiry is the RFC 3339 text of the instant; the value is the
//! caller's payload, already encoded, and runs to the end of the entry.  The
//! expiry can be read without touching the payload.
use vstd::prelude::*;
use vstd::slice::{slice_subrange, slice_to_vec};
use crate::error::Error;
use crate::instant::{lemma_written_reads_back, Timestamp};
use crate::wire::{
    append, equal, lemma_text_round_trip, read_text, text, text_at, write_text, MAP_OF_TWO,
};

verus! {

/// A complete stored entry.
#[derive(Debug)]
pub struct StoredEntry<T> {
    /// The instant from which the entry counts as expired.
    pub expires_at: Timestamp,
    /// The stored value.
    pub value: T,
}

/// The part of a stored entry that is read to judge its freshness.
#[derive(Debug)]
pub struct PartialStoredEntry {
    /// The instant from which the entry counts as expired.
    pub expires_at: Timestamp,
}

/// An entry that expires at `expires_at` is expired at `now` once `now` has
/// reached that instant.
pub open spec fn expired(expires_at: Timestamp, now: Timestamp) -> bool {
    !now.precedes(expires_at)
}

impl<T> StoredEntry<T> {
    /// Whether the entry is expired at `now`.
    pub fn is_expired(&self, now: &Timestamp) -> (r: bool)
        ensures
            r == expired(self.expires_at, *now),
    {
        !now.is_before(&self.expires_at)
    }
}

impl PartialStoredEntry {
    /// Whether the entry is expired at `now`.
    pub fn is_expired(&self, now: &Timestamp) -> (r: bool)
        ensures
            r == expired(self.expires_at, *now),
    {
        !now.is_before(&self.expires_at)
    }

    /// The entry with its expiry and no value.
    pub fn into_stored_entry(self) -> (r: StoredEntry<()>)
        ensures
            r == (StoredEntry { expires_at: self.expires_at, value: () }),
    {
        StoredEntry { expires_at: self.expires_at, value: () }
    }
}

/// The label of the first pair: the bytes of `expires_at`.
pub open spec fn expires_label() -> Seq<u8> {
    seq![0x65u8, 0x78, 0x70, 0x69, 0x72, 0x65, 0x73, 0x5f, 0x61, 0x74]
}

/// The label of the second pair: the bytes of `value`.
pub open spec fn value_label() -> Seq<u8> {
    seq![0x76u8, 0x61, 0x6c, 0x75, 0x65]
}

/// The bytes of an entry with the written expiry `stamp` and the encoded value `payload`.
pub open spec fn entry_frame(stamp: Seq<u8>, payload: Seq<u8>) -> Seq<u8> {
    seq![MAP_OF_TWO] + text(expires_label()) + text(stamp) + text(value_label()) + payload
}

/// The written expiry and the encoded value of an entry, where `bytes` has
/// the layout of one: a map of two, the two labels in their places, and at
/// least one byte of value.
pub open spec fn entry_slots(bytes: Seq<u8>) -> Option<(Seq<u8>, Seq<u8>)> {
    if bytes.len() == 0 || bytes[0] != MAP_OF_TWO {
        None
    } else {
        match text_at(bytes, 1) {
            Some((first, at_stamp)) => match text_at(bytes, at_stamp) {
                Some((stamp, at_label)) => match text_at(bytes, at_label) {
                    Some((second, at_value)) => if first == expires_label() && second
                        == value_label() && at_value < bytes.len() {
                        Some((stamp, bytes.subrange(at_value, bytes.len() as int)))
                    } else {
                        None
                    },
                    None => None,
                },
                None => None,
            },
            None => None,
        }
    }
}

/// The bytes under which a value that expires at `expires_at` is stored.
/// There are none for an empty payload, nor for an expiry without a written form.
pub open spec fn encoded(expires_at: Timestamp, payload: Seq<u8>) -> Option<Seq<u8>> {
    if payload.len() == 0 {
        None
    } else {
        match expires_at.written() {
            Some(stamp) => Some(entry_frame(stamp, payload)),
            None => None,
        }
    }
}

/// The expiry that `bytes` holds, where they are an entry.
pub open spec fn decoded_expiry(bytes: Seq<u8>) -> Option<Timestamp> {
    match entry_slots(bytes) {
        Some((stamp, _)) => Timestamp::read(stamp),
        None => None,
    }
}

/// The entry that `bytes` hold: its expiry and its encoded value.
pub open spec fn decoded(bytes: Seq<u8>) -> Option<StoredEntry<Seq<u8>>> {
    match entry_slots(bytes) {
        Some((stamp, payload)) => match Timestamp::read(stamp) {
            Some(expires_at) => Some(StoredEntry { expires_at, value: payload }),
            None => None,
        },
        None => None,
    }
}

/// Finds the parts of an entry: where the written expiry starts and ends,
/// and where the value starts.
fn split(bytes: &[u8]) -> (r: Option<(usize, usize, usize)>)
    ensures
        match r {
            Some((start, end, at_value)) => start <= end <= at_value < bytes.len() && entry_slots(
                bytes@,
            ) == Some(
                (
                    bytes@.subrange(start as int, end as int),
                    bytes@.subrange(at_value as int, bytes.len() as int),
                ),
            ),
            None => entry_slots(bytes@) is None,
        },
{
    if bytes.len() == 0 || bytes[0] != MAP_OF_TWO {
        return None;
    }
    let (first_start, at_stamp): (usize, usize) = match read_text(bytes, 1) {
        Some(found) => found,
        None => { return None; },
    };
    let (start, at_label): (usize, usize) = match read_text(bytes, at_stamp) {
        Some(found) => found,
        None => { return None; },
    };
    let (second_start, at_value): (usize, usize) = match read_text(bytes, at_label) {
        Some(found) => found,
        None => { return None; },
    };
    let first: Vec<u8> = vec![0x65u8, 0x78, 0x70, 0x69, 0x72, 0x65, 0x73, 0x5f, 0x61, 0x74];
    let second: Vec<u8> = vec![0x76u8, 0x61, 0x6c, 0x75, 0x65];
    assert(first@ =~= expires_label());
    assert(second@ =~= value_label());
    if equal(slice_subrange(bytes, first_start, at_stamp), first.as_slice()) && equal(
        slice_subrange(bytes, second_start, at_value),
        second.as_slice(),
    ) && at_value < bytes.len() {
        Some((start, at_label, at_value))
    } else {
        None
    }
}

/// Encodes an entry: the expiry in its written form, then the payload.
///
/// Fails with `EmptyValue` on an empty payload, and with `Expiry` where the
/// payload is in order and the expiry has no written form.
pub fn encode(expires_at: &Timestamp, payload: &[u8]) -> (r: Result<Vec<u8>, Error>)
    ensures
        match r {
            Ok(bytes) => encoded(*expires_at, payload@) == Some(bytes@),
            Err(Error::EmptyValue) => payload@.len() == 0,
            Err(Error::Expiry) => payload@.len() > 0 && expires_at.written() is None,
            Err(Error::Cbor(_)) => false,
        },
{
    if payload.len() == 0 {
        return Err(Error::EmptyValue);
    }
    let stamp: Vec<u8> = match expires_at.to_text() {
        Some(stamp) => stamp,
        None => { return Err(Error::Expiry); },
    };
    let first: Vec<u8> = vec![0x65u8, 0x78, 0x70, 0x69, 0x72, 0x65, 0x73, 0x5f, 0x61, 0x74];
    let second: Vec<u8> = vec![0x76u8, 0x61, 0x6c, 0x75, 0x65];
    assert(first@ =~= expires_label());
    assert(second@ =~= value_label());
    let mut out: Vec<u8> = Vec::new();
    out.push(MAP_OF_TWO);
    write_text(&mut out, first.as_slice());
    write_text(&mut out, stamp.as_slice());
    write_text(&mut out, second.as_slice());
    append(&mut out, payload);
    assert(out@ =~= entry_frame(stamp@, payload@));
    Ok(out)
}

/// Reads the expiry of an entry and leaves the value where it is.
pub fn decode_partial(bytes: &[u8]) -> (r: Option<PartialStoredEntry>)
    ensures
        match r {
            Some(entry) => decoded_expiry(bytes@) == Some(entry.expires_at),
            None => decoded_expiry(bytes@) is None,
        },
{
    match split(bytes) {
        Some((start, end, _)) => {
            match Timestamp::from_text(slice_subrange(bytes, start, end)) {
                Some(expires_at) => Some(PartialStoredEntry { expires_at }),
                None => None,
            }
        },
        None => None,
    }
}

/// Reads an entry: its expiry and a copy of its encoded value.
pub fn decode_full(bytes: &[u8]) -> (r: Option<StoredEntry<Vec<u8>>>)
    ensures
        match r {
            Some(entry) => decoded(bytes@) == Some(
                StoredEntry { expires_at: entry.expires_at, value: entry.value@ },
            ),
            None => decoded(bytes@) is None,
        },
{
    match split(bytes) {
        Some((start, end, at_value)) => {
            match Timestamp::from_text(slice_subrange(bytes, start, end)) {
                Some(expires_at) => {
                    let value: Vec<u8> = slice_to_vec(slice_subrange(bytes, at_value, bytes.len()));
                    Some(StoredEntry { expires_at, value })
                },
                None => None,
            }
        },
        None => None,
    }
}

/// An entry frame falls apart into the written expiry and the payload it was made of.
pub proof fn lemma_entry_slots_of_frame(stamp: Seq<u8>, payload: Seq<u8>)
    requires
        stamp.len() <= u64::MAX,
        payload.len() > 0,
    ensures
        entry_slots(entry_frame(stamp, payload)) == Some((stamp, payload)),
{
    let bytes = entry_frame(stamp, payload);
    let a = seq![MAP_OF_TWO];
    let b = a + text(expires_label());
    let c = b + text(stamp);
    let d = c + text(value_label());
    lemma_text_round_trip(a, expires_label(), text(stamp) + text(value_label()) + payload);
    assert(bytes =~= a + text(expires_label()) + (text(stamp) + text(value_label()) + payload));
    lemma_text_round_trip(b, stamp, text(value_label()) + payload);
    assert(bytes =~= b + text(stamp) + (text(value_label()) + payload));
    lemma_text_round_trip(c, value_label(), payload);
    assert(bytes =~= c + text(value_label()) + payload);
    assert(bytes.subrange(d.len() as int, bytes.len() as int) =~= payload);
}

/// What was encoded is decoded again: the bytes written for an expiry and a
/// payload hold that expiry and that payload.
pub proof fn lemma_decode_of_encode(expires_at: Timestamp, payload: Seq<u8>)
    requires
        encoded(expires_at, payload) is Some,
    ensures
        decoded(encoded(expires_at, payload).unwrap()) == Some(
            StoredEntry { expires_at, value: payload },
        ),
        decoded_expiry(encoded(expires_at, payload).unwrap()) == Some(expires_at),
{
    lemma_written_reads_back(expires_at);
    lemma_entry_slots_of_frame(expires_at.written().unwrap(), payload);
}

/// The expiry can be read from every byte string that holds a whole entry,
/// and it is that entry's expiry; and where the expiry can be read, the
/// whole entry is there.
pub proof fn lemma_partial_agrees_with_full(bytes: Seq<u8>)
    ensures
        decoded(bytes) is Some <==> decoded_expiry(bytes) is Some,
        decoded(bytes) is Some ==> decoded_expiry(bytes) == Some(decoded(bytes).unwrap().expires_at),
{
}

} // verus!
