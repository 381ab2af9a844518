//! Errors of the domain layer, classified by category and retry status.

use vstd::prelude::*;
use vstd::string::*;

verus! {

/// Broad kind of a failure, so that callers can decide how to react without
/// knowing which storage backend failed.
#[derive(Debug, Clone, Copy, PartialEq, Eq, Structural, Hash)]
pub enum ErrorCategory {
    /// A dependency could not be reached.
    Unavailable,
    /// The operation was cut short before it completed.
    Interrupted,
    /// A dependency refused the request because it is overloaded.
    Busy,
    /// The request itself was malformed.
    Incorrect,
    /// The caller may not perform the operation.
    Forbidden,
    /// The operation does not exist.
    Unsupported,
    /// What was asked for does not exist.
    NotFound,
    /// The operation clashes with the current state.
    Conflict,
    /// Something is broken on our side.
    Fault,
}

/// Whether retrying a failed operation may succeed.
#[derive(Debug, Clone, Copy, PartialEq, Eq, Structural, Hash)]
pub enum Status {
    /// Retrying the same operation will fail again.
    Permanent,
    /// Retrying the same operation may succeed.
    Temporary,
    /// The condition persists until something outside the caller changes.
    Persistent,
}

/// The status that a failure of category `c` has unless its source says
/// otherwise; `None` for the categories whose status depends on context.
pub open spec fn default_status(c: ErrorCategory) -> Option<Status> {
    match c {
        ErrorCategory::Unavailable | ErrorCategory::Busy => Some(Status::Temporary),
        ErrorCategory::Interrupted | ErrorCategory::NotFound => None,
        _ => Some(Status::Permanent),
    }
}

/// Errors returned by storage ports: each one tells its category and status.
pub trait DbError {
    /// The category of this error, as a value.
    spec fn category_spec(&self) -> ErrorCategory;

    /// The status of this error, as a value.
    spec fn status_spec(&self) -> Status;

    /// The category of this error.
    fn category(&self) -> (c: ErrorCategory)
        ensures
            c == self.category_spec(),
    ;

    /// The status of this error.
    fn status(&self) -> (s: Status)
        ensures
            s == self.status_spec(),
    ;
}

/// A failure reported by a storage port, as its category and status.
#[derive(Debug, Clone, Copy, PartialEq, Eq, Structural)]
pub struct StorageFailure {
    /// The category of the failure.
    pub category: ErrorCategory,
    /// The status of the failure.
    pub status: Status,
}

impl DbError for StorageFailure {
    open spec fn category_spec(&self) -> ErrorCategory {
        self.category
    }

    open spec fn status_spec(&self) -> Status {
        self.status
    }

    fn category(&self) -> (c: ErrorCategory) {
        self.category
    }

    fn status(&self) -> (s: Status) {
        self.status
    }
}

/// A storage-layer failure re-wrapped by the domain layer, keeping the
/// category and status of the failure it stands for.
#[derive(Debug, PartialEq, Eq)]
pub struct StorageLayerError {
    /// What the domain layer was doing when storage failed.
    pub message: String,
    /// The category of the underlying failure.
    pub category: ErrorCategory,
    /// The status of the underlying failure.
    pub status: Status,
}

/// A storage-layer failure that is known to be worth retrying.
#[derive(Debug, PartialEq, Eq)]
pub struct RetryableStorageLayerError {
    /// Description of the failure.
    pub message: String,
}

/// Errors that can occur in the domain layer.
#[derive(Debug, PartialEq, Eq)]
pub enum Error {
    /// A storage layer error with the category and status of its cause.
    StorageLayerError(StorageLayerError),
    /// A storage layer error that is guaranteed to be retryable.
    RetryableStorageLayerError(RetryableStorageLayerError),
    /// A grant failed after its event was persisted; retrying resumes it.
    GrantInterrupted(String),
}

/// The category of `e`.
pub open spec fn error_category(e: Error) -> ErrorCategory {
    match e {
        Error::StorageLayerError(s) => s.category,
        Error::RetryableStorageLayerError(_) => ErrorCategory::Unavailable,
        Error::GrantInterrupted(_) => ErrorCategory::Interrupted,
    }
}

/// The status of `e`.
pub open spec fn error_status(e: Error) -> Status {
    match e {
        Error::StorageLayerError(s) => s.status,
        Error::RetryableStorageLayerError(_) => Status::Temporary,
        Error::GrantInterrupted(_) => Status::Temporary,
    }
}

fn concat(prefix: &str, rest: &str) -> (s: String)
    ensures
        s@ == prefix@ + rest@,
{
    let mut s = String::from_str(prefix);
    s.append(rest);
    s
}

impl StorageLayerError {
    /// Builds a domain-layer [`Error`] wrapping a storage error with explicit
    /// category and status.
    pub fn build(message: &str, category: ErrorCategory, status: Status) -> (e: Error)
        ensures
            e matches Error::StorageLayerError(s) && s.message@ == message@ && s.category
                == category && s.status == status,
    {
        Error::StorageLayerError(
            StorageLayerError { message: String::from_str(message), category, status },
        )
    }

    /// Wraps a storage-port error in a domain-layer [`Error`] carrying
    /// `message`, with the category and status of `cause`.
    pub fn raise<E: DbError>(message: &str, cause: &E) -> (e: Error)
        ensures
            e matches Error::StorageLayerError(s) && s.message@ == message@ && s.category
                == cause.category_spec() && s.status == cause.status_spec(),
    {
        let category = cause.category();
        let status = cause.status();
        Error::StorageLayerError(
            StorageLayerError { message: String::from_str(message), category, status },
        )
    }

    /// The category of the underlying failure.
    pub fn category(&self) -> (c: ErrorCategory)
        ensures
            c == self.category,
    {
        self.category
    }

    /// The status of the underlying failure.
    pub fn status(&self) -> (s: Status)
        ensures
            s == self.status,
    {
        self.status
    }

    /// The rendering `Storage layer error: <message>`.
    pub fn to_display_string(&self) -> (s: String)
        ensures
            s@ == "Storage layer error: "@ + self.message@,
    {
        concat("Storage layer error: ", self.message.as_str())
    }

    /// The error that caused this one: none is kept.
    pub fn source(&self) -> (r: Option<&Error>)
        ensures
            r is None,
    {
        None
    }
}

impl RetryableStorageLayerError {
    /// The category: the storage layer was unavailable.
    pub fn category(&self) -> (c: ErrorCategory)
        ensures
            c == ErrorCategory::Unavailable,
    {
        ErrorCategory::Unavailable
    }

    /// The status: retrying may succeed.
    pub fn status(&self) -> (s: Status)
        ensures
            s == Status::Temporary,
    {
        Status::Temporary
    }

    /// The rendering `Retryable storage layer error: <message>`.
    pub fn to_display_string(&self) -> (s: String)
        ensures
            s@ == "Retryable storage layer error: "@ + self.message@,
    {
        concat("Retryable storage layer error: ", self.message.as_str())
    }

    /// The error that caused this one: none is kept.
    pub fn source(&self) -> (r: Option<&Error>)
        ensures
            r is None,
    {
        None
    }
}

impl Error {
    /// The rendering of this error: that of the wrapped storage error, or
    /// `Grant interrupted: <message>`.
    pub fn to_display_string(&self) -> (s: String)
        ensures
            s@ == match self {
                Error::StorageLayerError(e) => "Storage layer error: "@ + e.message@,
                Error::RetryableStorageLayerError(e) => "Retryable storage layer error: "@
                    + e.message@,
                Error::GrantInterrupted(m) => "Grant interrupted: "@ + m@,
            },
    {
        match self {
            Error::StorageLayerError(e) => e.to_display_string(),
            Error::RetryableStorageLayerError(e) => e.to_display_string(),
            Error::GrantInterrupted(m) => concat("Grant interrupted: ", m.as_str()),
        }
    }

    /// The error that caused this one: none is kept.
    pub fn source(&self) -> (r: Option<&Error>)
        ensures
            r is None,
    {
        None
    }
}

impl DbError for Error {
    open spec fn category_spec(&self) -> ErrorCategory {
        error_category(*self)
    }

    open spec fn status_spec(&self) -> Status {
        error_status(*self)
    }

    fn category(&self) -> (c: ErrorCategory) {
        match self {
            Error::StorageLayerError(s) => s.category,
            Error::RetryableStorageLayerError(_) => ErrorCategory::Unavailable,
            Error::GrantInterrupted(_) => ErrorCategory::Interrupted,
        }
    }

    fn status(&self) -> (s: Status) {
        match self {
            Error::StorageLayerError(e) => e.status,
            Error::RetryableStorageLayerError(_) => Status::Temporary,
            Error::GrantInterrupted(_) => Status::Temporary,
        }
    }
}

impl From<StorageLayerError> for Error {
    fn from(e: StorageLayerError) -> (r: Error) {
        Error::StorageLayerError(e)
    }
}

impl vstd::std_specs::convert::FromSpecImpl<StorageLayerError> for Error {
    open spec fn obeys_from_spec() -> bool {
        true
    }

    open spec fn from_spec(e: StorageLayerError) -> Error {
        Error::StorageLayerError(e)
    }
}

impl From<RetryableStorageLayerError> for Error {
    fn from(e: RetryableStorageLayerError) -> (r: Error) {
        Error::RetryableStorageLayerError(e)
    }
}

impl vstd::std_specs::convert::FromSpecImpl<RetryableStorageLayerError> for Error {
    open spec fn obeys_from_spec() -> bool {
        true
    }

    open spec fn from_spec(e: RetryableStorageLayerError) -> Error {
        Error::RetryableStorageLayerError(e)
    }
}

} // verus!
