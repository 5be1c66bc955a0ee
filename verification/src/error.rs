//! What can go wrong on the write path.
use vstd::prelude::*;

verus! {

/// The error type of the cache's write path.  Reading never fails: what
/// cannot be decoded counts as missing.
#[derive(Debug)]
pub enum Error {
    /// The CBOR encoder refused the key; the message is the encoder's.
    Cbor(String),
    /// The value to store has no bytes, so it is no encoded value.
    EmptyValue,
    /// The instant of expiry cannot be written: the time-to-live carries it
    /// out of the range of instants that have a written form.
    Expiry,
}

impl Error {
    /// A short description of the kind of error.
    pub fn describe(&self) -> (r: &'static str)
        ensures
            r@ == match self {
                Error::Cbor(_) => "CBOR error"@,
                Error::EmptyValue => "empty value"@,
                Error::Expiry => "expiry out of range"@,
            },
    {
        match self {
            Error::Cbor(_) => "CBOR error",
            Error::EmptyValue => "empty value",
            Error::Expiry => "expiry out of range",
        }
    }
}

} // verus!
