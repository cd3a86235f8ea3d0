//! Error kinds surfaced by the data-access layer.

use vstd::prelude::*;

verus! {

/// The failure modes of the core.
///
/// `EntryNotFound` and `DuplicateEntry` are expected and recoverable at
/// the caller; `StorageFailure` is the catch-all backend failure and is
/// treated as fatal for the current request. `InvalidPageSize` reports a
/// page size of zero handed to the pagination calculator.
#[derive(Clone, Copy, Debug, PartialEq, Eq, Structural)]
pub enum Error {
    /// A lookup by id or natural key matched zero current rows.
    EntryNotFound,
    /// An insert violated a declared uniqueness constraint.
    DuplicateEntry,
    /// A page size of zero was supplied.
    InvalidPageSize,
    /// A transport or backend failure; never silently retried.
    StorageFailure,
    /// A language code that names no known script.
    InvalidLanguageCode,
    /// A numeric value that encodes no account type.
    InvalidAccountTypeValue,
}

} // verus!
