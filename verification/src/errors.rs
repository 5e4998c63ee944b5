//! Error taxonomy shared by every fallible operation of the library.
use vstd::prelude::*;

verus! {

/// Why an operation was refused or a refresh aborted.
#[derive(Clone, Copy, Debug, PartialEq, Eq, Structural)]
pub enum MetricsError {
    /// The caller is not the recorded owner.
    Authorization,
    /// The remote API answered with a non-success status or the transport failed.
    Network,
    /// The remote answer is malformed: a required field is missing, more pages
    /// were announced without a cursor, or the answer embeds an error payload.
    Protocol,
    /// A body could not be read as JSON.
    Serialization,
    /// The clock value could not be turned into a calendar date.
    Timestamp,
    /// The pagination bound was reached before the remote reported the last page.
    PageLimitExceeded,
}

} // verus!
