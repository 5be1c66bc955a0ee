//! A time-to-live cache layered over an ordered key-value store.
//!
//! The cache memoizes encoded values under structured keys.  It decides what
//! is read, written and deleted; the store itself, and the waiting of
//! callers on one another, stay with the caller.
pub mod cache;
pub mod dynamic;
pub mod entry;
pub mod error;
pub mod flight;
pub mod instant;
pub mod key;
pub mod laws;
pub mod state;
pub mod wire;

pub use crate::cache::{Cache, JsonEntry, Put, Reason, Removal, WrapEnd, WrapStep};
pub use crate::entry::{PartialStoredEntry, StoredEntry};
pub use crate::error::Error;
pub use crate::flight::{Flights, Role};
pub use crate::instant::{Duration, Timestamp};
pub use crate::state::{EntryRef, State};
