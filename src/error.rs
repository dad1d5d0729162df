//! The failures that end a command.
use vstd::prelude::*;

verus! {

/// Why a command could not go on.
#[derive(Clone, Copy, Debug, PartialEq, Eq, Structural)]
pub enum Error {
    /// No local configuration was found.
    ConfigMissing,
    /// The alias is not in the link store.
    UnknownAlias,
    /// A chosen index lies outside the listed options.
    InvalidSelection,
    /// The time is neither a non-negative decimal number nor "fill".
    InvalidTime,
    /// "fill" was asked for, but no entry was logged earlier today.
    NoRecentEntry,
    /// The local link or configuration file could not be read.
    StorageCorrupt,
    /// The remote service could not be reached.
    SubmitFailed,
    /// More hour entries were listed than can be totalled.
    TooManyEntries,
}

} // verus!
