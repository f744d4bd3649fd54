//! Every way a chain mutation can fail.

use vstd::prelude::*;
use crate::types::{LogId, Lsn, SegmentIndex};

verus! {

/// A mutation that the structure of a chain, or of the log mapping, forbids.
#[derive(Clone, Copy, Debug, PartialEq, Eq, Structural)]
pub enum BuilderError {
    /// The log is already part of the mapping.
    LogAlreadyExists(LogId),
    /// The given Lsn does not lie beyond the base of the chain's tail segment.
    SegmentConflict(Lsn),
    /// The chain is sealed and takes no further mutation.
    ChainPermanentlySealed,
    /// The tail segment already carries the largest index there is.
    SegmentIndexExhausted,
}

/// Failures of an administrative chain operation.
#[derive(Clone, Copy, Debug, PartialEq, Eq, Structural)]
pub enum AdminError {
    /// The caller's idea of the tail segment is stale.
    SegmentMismatch { expected: SegmentIndex, found: SegmentIndex },
    /// The chain itself rejected the mutation.
    ChainBuilder(BuilderError),
}

/// What the metadata store reports when it could not read or write.
#[derive(Clone, Copy, Debug, PartialEq, Eq, Structural)]
pub enum StoreError {
    /// Another writer changed the record since it was loaded.
    VersionConflict,
    /// The store could not be reached.
    Network,
    /// The store failed internally.
    Storage,
    /// The record could not be encoded or decoded.
    Codec,
}

/// The terminal error a requester can observe.
#[derive(Clone, Copy, Debug, PartialEq, Eq, Structural)]
pub enum Error {
    /// The request names a log that the metadata does not hold.
    UnknownLogId(LogId),
    /// No log metadata has been provisioned at all.
    LogsMetadataNotProvisioned,
    /// The request was validated and rejected.
    Admin(AdminError),
    /// The store failed the commit.
    MetadataStore(StoreError),
}

/// Outcome of a failed optimistic read-modify-write: either the mutation
/// itself gave up, or the store could not complete the cycle.
#[derive(Clone, Copy, Debug, PartialEq, Eq, Structural)]
pub enum ReadModifyWriteError {
    FailedOperation(Error),
    ReadWrite(StoreError),
}

impl ReadModifyWriteError {
    /// The error every requester of the failed cycle is told.
    pub open spec fn transposed(self) -> Error {
        match self {
            ReadModifyWriteError::FailedOperation(err) => err,
            ReadModifyWriteError::ReadWrite(err) => Error::MetadataStore(err),
        }
    }

    /// Folds the two layers into one error: what the mutation failed with is
    /// surfaced as it is, what the store failed with is wrapped verbatim.
    pub fn transpose(self) -> (err: Error)
        ensures
            err == self.transposed(),
    {
        match self {
            ReadModifyWriteError::FailedOperation(err) => err,
            ReadModifyWriteError::ReadWrite(err) => Error::MetadataStore(err),
        }
    }
}

impl Error {
    /// Whether the error stems from the shape of the chain itself.
    pub open spec fn is_structural(self) -> bool {
        self matches Error::Admin(AdminError::ChainBuilder(_))
    }
}

} // verus!
