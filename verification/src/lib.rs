//! A batched, deduplicating loader for Hacker News items.
//!
//! Resolvers ask for items by numeric id, many at a time and often for the
//! same id more than once. The loader coalesces all keys submitted within one
//! batch window, fetches each distinct key upstream exactly once, and hands
//! every caller its requested slice of the results in the order it asked for
//! them. Keys whose fetch failed or came back empty are omitted rather than
//! reported as errors.

use vstd::prelude::*;

pub mod loader;
pub mod types;

verus! {

/// Why a single upstream fetch failed.
#[derive(Clone, Copy, PartialEq, Eq, Structural, Debug)]
pub enum FetchError {
    /// The request never produced a usable response: network failure or
    /// timeout.
    Transport,
    /// A response body arrived but did not decode into any expected shape.
    Decode,
}

} // verus!
