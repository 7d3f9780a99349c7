pub mod cache;
pub mod cli;
pub mod config;
pub mod dates;
pub mod locale;
pub mod model;
pub mod outside;
pub mod query;
pub mod render;
pub mod zones;

use vstd::prelude::*;

verus! {

/// The error kinds a query or a cache flush can surface.
#[derive(Clone, Copy, PartialEq, Eq, Structural, Debug)]
pub enum Error {
    /// Transport or HTTP failure while fetching.
    NetworkFailure,
    /// The response body or one of its date/time fields did not parse.
    DecodeFailure,
    /// A query that expected at least one schedule entry got none.
    EmptyResult,
    /// Directory creation or file write failed while saving the cache.
    CacheIoFailure,
}

} // verus!
