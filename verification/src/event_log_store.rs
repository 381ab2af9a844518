//! Reading and writing the event and effect log through a repository, with
//! the domain error reported for each failed operation.

use vstd::prelude::*;
use vstd::string::*;

use crate::community_store::is_storage_error;
use crate::error::{Error, StorageFailure, StorageLayerError};

verus! {

/// Reads and writes the event and effect log via a repository.
pub struct EventLogStore<R> {
    /// The repository that performs the reads and writes.
    pub repo: R,
}

impl<R> EventLogStore<R> {
    /// Creates a new `EventLogStore` backed by `repo`.
    pub fn new(repo: R) -> (s: EventLogStore<R>)
        ensures
            s.repo == repo,
    {
        EventLogStore { repo }
    }
}

/// An operation of the event log store.
#[derive(Debug, Clone, Copy, PartialEq, Eq, Structural)]
pub enum LogOperation {
    /// Read the log entry at a sequence id.
    GetRecord,
    /// Read the effect of an event.
    GetEffectForEvent,
    /// Read effects after a sequence id.
    GetEffectsAfter,
    /// Read records before a sequence id.
    GetRecordsBefore,
    /// Append an event.
    AppendEvent,
    /// Append an effect.
    AppendEffect,
}

/// What the store was doing when an operation failed.
pub open spec fn operation_message(op: LogOperation) -> Seq<char> {
    match op {
        LogOperation::GetRecord => "failed to read event log record"@,
        LogOperation::GetEffectForEvent => "failed to read effect"@,
        LogOperation::GetEffectsAfter => "failed to read effects"@,
        LogOperation::GetRecordsBefore => "failed to read records"@,
        LogOperation::AppendEvent => "failed to create event"@,
        LogOperation::AppendEffect => "failed to create effect"@,
    }
}

impl LogOperation {
    /// The domain error for a failure of this operation: a storage-layer error
    /// saying what was being done, with the category and status of `f`.
    pub fn failure(self, f: StorageFailure) -> (e: Error)
        ensures
            is_storage_error(e, operation_message(self), f),
    {
        let message = match self {
            LogOperation::GetRecord => "failed to read event log record",
            LogOperation::GetEffectForEvent => "failed to read effect",
            LogOperation::GetEffectsAfter => "failed to read effects",
            LogOperation::GetRecordsBefore => "failed to read records",
            LogOperation::AppendEvent => "failed to create event",
            LogOperation::AppendEffect => "failed to create effect",
        };
        Error::StorageLayerError(
            StorageLayerError {
                message: String::from_str(message),
                category: f.category,
                status: f.status,
            },
        )
    }
}

} // verus!
