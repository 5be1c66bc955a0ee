//! Values whose shape is only known at run time.
//!
//! Keys reach the cache as encoded bytes.  To give equal keys equal bytes,
//! whatever order their maps were written in, a key is read into a
//! `serde_cbor::Value` tree, whose maps are ordered, and written again from
//! that tree.  Listings hand out `serde_json::Value` trees.  Both kinds of
//! tree are carried through as they are; the encoder and the decoder behind
//! them belong to `serde_cbor`.
use vstd::prelude::*;
use crate::error::Error;

verus! {

/// `serde_cbor::Value`, a tree of CBOR items.  Nothing inside it is looked at here.
#[verifier::external_type_specification]
#[verifier::external_body]
pub struct ExCborValue(serde_cbor::Value);

/// `serde_json::Value`, a tree of JSON values.  Nothing inside it is looked at here.
#[verifier::external_type_specification]
#[verifier::external_body]
pub struct ExJsonValue(serde_json::Value);

/// The JSON value into which `serde_cbor` decodes `bytes`, where it decodes
/// them into one.
pub uninterp spec fn json_of_cbor(bytes: Seq<u8>) -> Option<serde_json::Value>;

/// The value tree into which `serde_cbor` decodes `bytes`, where it decodes
/// them into one.
pub uninterp spec fn tree_of_cbor(bytes: Seq<u8>) -> Option<serde_cbor::Value>;

/// The bytes into which `serde_cbor` encodes a value tree, where it encodes it.
pub uninterp spec fn cbor_of(value: serde_cbor::Value) -> Option<Seq<u8>>;

/// The canonical form of an encoded key: the bytes written from the tree
/// that the key is read into.  There is none where the key is no CBOR, or
/// where the encoder refuses the tree.
pub open spec fn canonical(key: Seq<u8>) -> Option<Seq<u8>> {
    match tree_of_cbor(key) {
        Some(tree) => cbor_of(tree),
        None => None,
    }
}

/// Decodes `bytes` into a value tree with `serde_cbor::from_slice`.  A
/// refusal comes back as the decoder's own message.  The contract only names
/// the result: the tree is `tree_of_cbor` of the bytes, so equal bytes decode
/// alike.
#[verifier::external_body]
pub(crate) fn cbor_tree(bytes: &[u8]) -> (r: Result<serde_cbor::Value, String>)
    ensures
        match r {
            Ok(tree) => tree_of_cbor(bytes@) == Some(tree),
            Err(_) => tree_of_cbor(bytes@) is None,
        },
{
    serde_cbor::from_slice::<serde_cbor::Value>(bytes).map_err(|e| e.to_string())
}

/// Encodes a value tree with `serde_cbor::to_vec`.  A refusal comes back as
/// the encoder's own message.  The contract only names the result: the bytes
/// are `cbor_of` of the tree, so equal trees are written alike; the maps
/// inside a tree are ordered maps, which the encoder walks in their order.
/// The encoder panics on the hidden variant that `serde_cbor` reserves for
/// its own extensions, so the tree must be one that the decoder has built:
/// the decoder never builds that variant.
#[verifier::external_body]
pub(crate) fn cbor_bytes(value: &serde_cbor::Value) -> (r: Result<Vec<u8>, String>)
    requires
        exists|bytes: Seq<u8>| #[trigger] tree_of_cbor(bytes) == Some(*value),
    ensures
        match r {
            Ok(bytes) => cbor_of(*value) == Some(bytes@),
            Err(_) => cbor_of(*value) is None,
        },
{
    serde_cbor::to_vec(value).map_err(|e| e.to_string())
}

/// Decodes `bytes` into a JSON value with `serde_cbor::from_slice`; the
/// decoder's error is dropped.  The contract only names the result: it is
/// `json_of_cbor` of the bytes, so equal bytes decode alike.
#[verifier::external_body]
pub(crate) fn json_from_cbor(bytes: &[u8]) -> (r: Option<serde_json::Value>)
    ensures
        r == json_of_cbor(bytes@),
{
    serde_cbor::from_slice::<serde_json::Value>(bytes).ok()
}

/// The canonical form of the encoded key `key`: the key is read into a
/// tree and written again from it.  Fails with `Cbor` exactly where the key
/// has no canonical form.
pub fn canonical_bytes(key: &[u8]) -> (r: Result<Vec<u8>, Error>)
    ensures
        match r {
            Ok(bytes) => canonical(key@) == Some(bytes@),
            Err(e) => e is Cbor && canonical(key@) is None,
        },
{
    match cbor_tree(key) {
        Ok(tree) => match cbor_bytes(&tree) {
            Ok(bytes) => Ok(bytes),
            Err(message) => Err(Error::Cbor(message)),
        },
        Err(message) => Err(Error::Cbor(message)),
    }
}

} // verus!
