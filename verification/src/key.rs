//! Store keys: a namespace slot and the caller's key in one array of two.
//!
//! The first slot is either the absent value or the namespace as a text
//! string; the second slot is the caller's key, already encoded.  Since the
//! text string carries its own length, the first slot can be told apart from
//! whatever follows it: two keys are equal only if both slots are.
use vstd::prelude::*;
use vstd::string::StringSliceAdditionalSpecFns;
use vstd::utf8::{encode_utf8, encode_utf8_decode_utf8};
use crate::wire::{
    append, head, lemma_head_len, lemma_text_round_trip, text, text_at, write_text, ARRAY_OF_TWO,
    MAJOR_TEXT, NULL,
};

verus! {

/// The first slot of a store key: absent, or the namespace as a text string.
pub open spec fn namespace_slot(ns: Option<Seq<u8>>) -> Seq<u8> {
    match ns {
        None => seq![NULL],
        Some(name) => text(name),
    }
}

/// The store key of the encoded key `key` in namespace `ns`.
pub open spec fn key_frame(ns: Option<Seq<u8>>, key: Seq<u8>) -> Seq<u8> {
    seq![ARRAY_OF_TWO] + namespace_slot(ns) + key
}

/// The two slots of a store key: the namespace, and the bytes of the caller's key.
pub open spec fn key_slots(bytes: Seq<u8>) -> Option<(Option<Seq<u8>>, Seq<u8>)> {
    if bytes.len() < 2 || bytes[0] != ARRAY_OF_TWO {
        None
    } else if bytes[1] == NULL {
        Some((None, bytes.subrange(2, bytes.len() as int)))
    } else {
        match text_at(bytes, 1) {
            Some((name, next)) => Some((Some(name), bytes.subrange(next, bytes.len() as int))),
            None => None,
        }
    }
}

/// The bytes of a namespace given by its characters: their UTF-8 encoding.
pub open spec fn name_bytes(ns: Option<Seq<char>>) -> Option<Seq<u8>> {
    match ns {
        None => None,
        Some(name) => Some(encode_utf8(name)),
    }
}

/// The bytes of a namespace given as a string.
pub open spec fn namespace_bytes(ns: Option<&str>) -> Option<Seq<u8>> {
    match ns {
        None => None,
        Some(name) => name_bytes(Some(name@)),
    }
}

/// Writes the store key of the encoded key `key` in namespace `ns`.
pub fn frame_key(ns: Option<&str>, key: &[u8]) -> (r: Vec<u8>)
    ensures
        r@ == key_frame(namespace_bytes(ns), key@),
{
    let mut out: Vec<u8> = Vec::new();
    out.push(ARRAY_OF_TWO);
    match ns {
        None => {
            out.push(NULL);
        },
        Some(name) => {
            write_text(&mut out, name.as_bytes());
        },
    }
    append(&mut out, key);
    assert(out@ =~= key_frame(namespace_bytes(ns), key@));
    out
}

/// A store key falls apart into the slots it was made of.
pub proof fn lemma_key_slots_of_frame(ns: Option<Seq<u8>>, key: Seq<u8>)
    requires
        ns matches Some(name) ==> name.len() <= u64::MAX,
    ensures
        key_slots(key_frame(ns, key)) == Some((ns, key)),
{
    let bytes = key_frame(ns, key);
    match ns {
        None => {
            assert(bytes.subrange(2, bytes.len() as int) =~= key);
        },
        Some(name) => {
            lemma_head_len(MAJOR_TEXT, name.len());
            lemma_text_round_trip(seq![ARRAY_OF_TWO], name, key);
            assert(bytes[1] == head(MAJOR_TEXT, name.len())[0]);
            let next = 1 + text(name).len();
            assert(bytes.subrange(next as int, bytes.len() as int) =~= key);
        },
    }
}

/// Store keys are equal only if they were made of the same namespace and the
/// same key: no two pairs share a store key.
pub proof fn lemma_key_frame_injective(
    ns1: Option<Seq<u8>>,
    key1: Seq<u8>,
    ns2: Option<Seq<u8>>,
    key2: Seq<u8>,
)
    requires
        ns1 matches Some(name) ==> name.len() <= u64::MAX,
        ns2 matches Some(name) ==> name.len() <= u64::MAX,
        key_frame(ns1, key1) == key_frame(ns2, key2),
    ensures
        ns1 == ns2,
        key1 == key2,
{
    lemma_key_slots_of_frame(ns1, key1);
    lemma_key_slots_of_frame(ns2, key2);
}

/// Two different namespace names give different store keys, whatever the
/// keys stored under them; and a key in a namespace never equals a key
/// outside every namespace.  The names are as long as a string in memory
/// can be.
pub proof fn lemma_namespaces_apart(a: &str, x: Seq<u8>, b: &str, y: Seq<u8>)
    requires
        a@ != b@,
        a.spec_bytes().len() <= usize::MAX,
        b.spec_bytes().len() <= usize::MAX,
    ensures
        key_frame(namespace_bytes(Some(a)), x) != key_frame(namespace_bytes(Some(b)), y),
        key_frame(namespace_bytes(Some(a)), x) != key_frame(namespace_bytes(None), y),
{
    encode_utf8_decode_utf8(a@);
    encode_utf8_decode_utf8(b@);
    assert(a.spec_bytes() != b.spec_bytes());
    if key_frame(namespace_bytes(Some(a)), x) == key_frame(namespace_bytes(Some(b)), y) {
        lemma_key_frame_injective(namespace_bytes(Some(a)), x, namespace_bytes(Some(b)), y);
    }
    if key_frame(namespace_bytes(Some(a)), x) == key_frame(namespace_bytes(None), y) {
        lemma_key_frame_injective(namespace_bytes(Some(a)), x, namespace_bytes(None), y);
    }
}

} // verus!
