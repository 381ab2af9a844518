//! Errors of the table storage backend, with the classification of SDK
//! failures into categories and retry statuses.

use vstd::prelude::*;
use vstd::string::*;

use crate::error::{DbError, ErrorCategory, Status};
use crate::fruit::str_eq;
use crate::ids::{uuid_text, CommunityId, SequenceId};
use crate::text::{decimal, push_decimal};

verus! {

/// The entity kind involved in a storage conflict.
#[derive(Debug, Clone, Copy, PartialEq, Eq, Structural)]
pub enum Entity {
    /// A community snapshot.
    Community,
    /// An event item.
    Event,
    /// An effect item.
    Effect,
}

/// The name of an entity kind as it appears in messages.
pub open spec fn entity_name(e: Entity) -> Seq<char> {
    match e {
        Entity::Community => "Community"@,
        Entity::Event => "Event"@,
        Entity::Effect => "Effect"@,
    }
}

impl Entity {
    /// The name of this entity kind.
    pub fn name(&self) -> (s: &'static str)
        ensures
            s@ == entity_name(*self),
    {
        match self {
            Entity::Community => "Community",
            Entity::Event => "Event",
            Entity::Effect => "Effect",
        }
    }
}

/// The request failed during construction; it was never sent to the service.
///
/// Construction failures indicate a bug in how the call was assembled, so they
/// are incorrect requests and permanent.
#[derive(Debug, PartialEq, Eq)]
pub struct ConstructionFailure {
    /// Description of the underlying failure.
    pub message: String,
}

impl ConstructionFailure {
    /// The rendering: the description of the underlying failure.
    pub fn to_display_string(&self) -> (r: String)
        ensures
            r@ == self.message@,
    {
        String::from_str(self.message.as_str())
    }

    /// The category: the request was incorrect.
    pub fn category(&self) -> (c: ErrorCategory)
        ensures
            c == ErrorCategory::Incorrect,
    {
        ErrorCategory::Incorrect
    }

    /// The status: retrying will fail again.
    pub fn status(&self) -> (s: Status)
        ensures
            s == Status::Permanent,
    {
        Status::Permanent
    }
}

/// The request timed out before a response was received; the same request may
/// succeed if retried.
#[derive(Debug, PartialEq, Eq)]
pub struct TimeoutError {
    /// Description of the underlying failure.
    pub message: String,
}

impl TimeoutError {
    /// The rendering: the description of the underlying failure.
    pub fn to_display_string(&self) -> (r: String)
        ensures
            r@ == self.message@,
    {
        String::from_str(self.message.as_str())
    }

    /// The category: the request was interrupted.
    pub fn category(&self) -> (c: ErrorCategory)
        ensures
            c == ErrorCategory::Interrupted,
    {
        ErrorCategory::Interrupted
    }

    /// The status: retrying may succeed.
    pub fn status(&self) -> (s: Status)
        ensures
            s == Status::Temporary,
    {
        Status::Temporary
    }
}

/// A response was received but could not be parsed, which points at a
/// protocol mismatch or a bug: a permanent fault.
#[derive(Debug, PartialEq, Eq)]
pub struct ResponseError {
    /// Description of the underlying failure.
    pub message: String,
}

impl ResponseError {
    /// The rendering: the description of the underlying failure.
    pub fn to_display_string(&self) -> (r: String)
        ensures
            r@ == self.message@,
    {
        String::from_str(self.message.as_str())
    }

    /// The category: something is broken.
    pub fn category(&self) -> (c: ErrorCategory)
        ensures
            c == ErrorCategory::Fault,
    {
        ErrorCategory::Fault
    }

    /// The status: retrying will fail again.
    pub fn status(&self) -> (s: Status)
        ensures
            s == Status::Permanent,
    {
        Status::Permanent
    }
}

/// The request failed during dispatch, before an HTTP response was received.
#[derive(Debug, PartialEq, Eq)]
pub struct DispatchFailure {
    /// The category derived from the kind of dispatch failure.
    pub category: ErrorCategory,
    /// The status derived from the kind of dispatch failure.
    pub status: Status,
    /// Description of the underlying failure.
    pub message: String,
}

impl DispatchFailure {
    /// The rendering: the description of the underlying failure.
    pub fn to_display_string(&self) -> (r: String)
        ensures
            r@ == self.message@,
    {
        String::from_str(self.message.as_str())
    }

    /// Classifies a dispatch failure by its kind: a timeout is interrupted and
    /// temporary, a caller configuration error is incorrect and permanent, an
    /// I/O failure is unavailable and temporary, anything else is a permanent fault.
    pub fn new(is_timeout: bool, is_user: bool, is_io: bool, message: String) -> (d: DispatchFailure)
        ensures
            d.message@ == message@,
            (d.category, d.status) == (if is_timeout {
                (ErrorCategory::Interrupted, Status::Temporary)
            } else if is_user {
                (ErrorCategory::Incorrect, Status::Permanent)
            } else if is_io {
                (ErrorCategory::Unavailable, Status::Temporary)
            } else {
                (ErrorCategory::Fault, Status::Permanent)
            }),
    {
        let (category, status) = if is_timeout {
            (ErrorCategory::Interrupted, Status::Temporary)
        } else if is_user {
            (ErrorCategory::Incorrect, Status::Permanent)
        } else if is_io {
            (ErrorCategory::Unavailable, Status::Temporary)
        } else {
            (ErrorCategory::Fault, Status::Permanent)
        };
        DispatchFailure { category, status, message }
    }
}

/// The error codes with which the service says that it is throttling requests.
pub open spec fn is_throttling_code(code: Seq<char>) -> bool {
    code == "ProvisionedThroughputExceededException"@ || code == "RequestLimitExceeded"@ || code
        == "ThrottlingException"@
}

/// The error codes with which the service says that it is unavailable.
pub open spec fn is_unavailable_code(code: Seq<char>) -> bool {
    code == "InternalServerError"@ || code == "ServiceUnavailable"@
}

/// The category and status of a service error with error code `code`.
pub open spec fn service_classification(code: Option<Seq<char>>) -> (ErrorCategory, Status) {
    match code {
        Some(c) => if is_throttling_code(c) {
            (ErrorCategory::Busy, Status::Temporary)
        } else if is_unavailable_code(c) {
            (ErrorCategory::Unavailable, Status::Temporary)
        } else {
            (ErrorCategory::Fault, Status::Permanent)
        },
        None => (ErrorCategory::Fault, Status::Permanent),
    }
}

/// The service returned a typed error response.
#[derive(Debug, PartialEq, Eq)]
pub struct ServiceError {
    /// The category derived from the error code.
    pub category: ErrorCategory,
    /// The status derived from the error code.
    pub status: Status,
    /// Description of the underlying failure.
    pub message: String,
}

impl ServiceError {
    /// The rendering: the description of the underlying failure.
    pub fn to_display_string(&self) -> (r: String)
        ensures
            r@ == self.message@,
    {
        String::from_str(self.message.as_str())
    }

    /// Classifies a service error by its code: throttling codes are busy and
    /// temporary, internal-error and unavailable codes are unavailable and
    /// temporary, everything else is a permanent fault.
    pub fn new(code: Option<&str>, message: String) -> (e: ServiceError)
        ensures
            e.message@ == message@,
            (e.category, e.status) == service_classification(
                match code {
                    Some(c) => Some(c@),
                    None => None,
                },
            ),
    {
        let (category, status) = match code {
            Some(c) => {
                if str_eq(c, "ProvisionedThroughputExceededException") || str_eq(
                    c,
                    "RequestLimitExceeded",
                ) || str_eq(c, "ThrottlingException") {
                    (ErrorCategory::Busy, Status::Temporary)
                } else if str_eq(c, "InternalServerError") || str_eq(c, "ServiceUnavailable") {
                    (ErrorCategory::Unavailable, Status::Temporary)
                } else {
                    (ErrorCategory::Fault, Status::Permanent)
                }
            },
            None => (ErrorCategory::Fault, Status::Permanent),
        };
        ServiceError { category, status, message }
    }
}

/// A classified SDK failure; each variant mirrors a kind of SDK error.
#[derive(Debug, PartialEq, Eq)]
pub enum SdkAnomaly {
    /// The request failed during construction and was not sent.
    ConstructionFailure(ConstructionFailure),
    /// The request timed out; it may have been sent and received.
    TimeoutError(TimeoutError),
    /// The request failed during dispatch; it may have been sent.
    DispatchFailure(DispatchFailure),
    /// A response was received but could not be parsed.
    ResponseError(ResponseError),
    /// The service returned an error response.
    ServiceError(ServiceError),
}

/// The category of an SDK failure.
pub open spec fn anomaly_category(a: SdkAnomaly) -> ErrorCategory {
    match a {
        SdkAnomaly::ConstructionFailure(_) => ErrorCategory::Incorrect,
        SdkAnomaly::TimeoutError(_) => ErrorCategory::Interrupted,
        SdkAnomaly::DispatchFailure(d) => d.category,
        SdkAnomaly::ResponseError(_) => ErrorCategory::Fault,
        SdkAnomaly::ServiceError(s) => s.category,
    }
}

/// The status of an SDK failure.
pub open spec fn anomaly_status(a: SdkAnomaly) -> Status {
    match a {
        SdkAnomaly::ConstructionFailure(_) => Status::Permanent,
        SdkAnomaly::TimeoutError(_) => Status::Temporary,
        SdkAnomaly::DispatchFailure(d) => d.status,
        SdkAnomaly::ResponseError(_) => Status::Permanent,
        SdkAnomaly::ServiceError(s) => s.status,
    }
}

impl SdkAnomaly {
    /// The rendering: that of the underlying failure.
    pub fn to_display_string(&self) -> (r: String)
        ensures
            r@ == match self {
                SdkAnomaly::ConstructionFailure(e) => e.message@,
                SdkAnomaly::TimeoutError(e) => e.message@,
                SdkAnomaly::DispatchFailure(e) => e.message@,
                SdkAnomaly::ResponseError(e) => e.message@,
                SdkAnomaly::ServiceError(e) => e.message@,
            },
    {
        match self {
            SdkAnomaly::ConstructionFailure(e) => e.to_display_string(),
            SdkAnomaly::TimeoutError(e) => e.to_display_string(),
            SdkAnomaly::DispatchFailure(e) => e.to_display_string(),
            SdkAnomaly::ResponseError(e) => e.to_display_string(),
            SdkAnomaly::ServiceError(e) => e.to_display_string(),
        }
    }

    /// The category of this failure.
    pub fn category(&self) -> (c: ErrorCategory)
        ensures
            c == anomaly_category(*self),
    {
        match self {
            SdkAnomaly::ConstructionFailure(e) => e.category(),
            SdkAnomaly::TimeoutError(e) => e.category(),
            SdkAnomaly::DispatchFailure(d) => d.category,
            SdkAnomaly::ResponseError(e) => e.category(),
            SdkAnomaly::ServiceError(s) => s.category,
        }
    }

    /// The status of this failure.
    pub fn status(&self) -> (s: Status)
        ensures
            s == anomaly_status(*self),
    {
        match self {
            SdkAnomaly::ConstructionFailure(e) => e.status(),
            SdkAnomaly::TimeoutError(e) => e.status(),
            SdkAnomaly::DispatchFailure(d) => d.status,
            SdkAnomaly::ResponseError(e) => e.status(),
            SdkAnomaly::ServiceError(s) => s.status,
        }
    }
}

/// A classified SDK error with the context in which it happened.
#[derive(Debug, PartialEq, Eq)]
pub struct DynamoSdkError {
    /// What the backend was doing.
    pub context: String,
    /// The classified SDK failure.
    pub cause: SdkAnomaly,
    /// The category reported to callers.
    pub category: ErrorCategory,
    /// The status reported to callers.
    pub status: Status,
}

impl DynamoSdkError {
    /// The rendering: the context in which the SDK failed.
    pub fn to_display_string(&self) -> (r: String)
        ensures
            r@ == self.context@,
    {
        String::from_str(self.context.as_str())
    }

    /// The error that caused this one: the classified SDK failure.
    pub fn source(&self) -> (r: Option<&SdkAnomaly>)
        ensures
            r == Some(&self.cause),
    {
        Some(&self.cause)
    }
}

/// Errors that can occur when accessing table storage.
#[derive(Debug, PartialEq, Eq)]
pub enum Error {
    /// A conditional write failed because the item already exists.
    AlreadyExists { community: CommunityId, version: SequenceId, entity: Entity },
    /// An SDK or network error, classified for retry decisions.
    Sdk(DynamoSdkError),
    /// A stored item could not be decoded into a domain type.
    Codec { message: String },
}

/// The category of a storage error.
pub open spec fn storage_error_category(e: Error) -> ErrorCategory {
    match e {
        Error::AlreadyExists { .. } => ErrorCategory::Conflict,
        Error::Sdk(s) => s.category,
        Error::Codec { .. } => ErrorCategory::Fault,
    }
}

/// The status of a storage error.
pub open spec fn storage_error_status(e: Error) -> Status {
    match e {
        Error::AlreadyExists { .. } => Status::Permanent,
        Error::Sdk(s) => s.status,
        Error::Codec { .. } => Status::Permanent,
    }
}

impl DbError for Error {
    open spec fn category_spec(&self) -> ErrorCategory {
        storage_error_category(*self)
    }

    open spec fn status_spec(&self) -> Status {
        storage_error_status(*self)
    }

    fn category(&self) -> (c: ErrorCategory) {
        match self {
            Error::AlreadyExists { .. } => ErrorCategory::Conflict,
            Error::Sdk(s) => s.category,
            Error::Codec { .. } => ErrorCategory::Fault,
        }
    }

    fn status(&self) -> (s: Status) {
        match self {
            Error::AlreadyExists { .. } => Status::Permanent,
            Error::Sdk(e) => e.status,
            Error::Codec { .. } => Status::Permanent,
        }
    }
}

/// The rendering of a storage error.
pub open spec fn storage_error_text(e: Error) -> Seq<char> {
    match e {
        Error::AlreadyExists { community, version, entity } => "could not write "@ + entity_name(
            entity,
        ) + " at version "@ + decimal(version.0 as nat) + " in community "@ + uuid_text(
            community.0,
        ) + " because it already exists"@,
        Error::Sdk(s) => s.context@,
        Error::Codec { message } => "DynamoDB codec error: "@ + message@,
    }
}

impl Error {
    /// The rendering of this error.
    pub fn to_display_string(&self) -> (s: String)
        ensures
            s@ == storage_error_text(*self),
    {
        match self {
            Error::AlreadyExists { community, version, entity } => {
                let mut s = String::from_str("could not write ");
                s.append(entity.name());
                s.append(" at version ");
                push_decimal(&mut s, version.0);
                s.append(" in community ");
                let u = community.to_uuid_string();
                s.append(u.as_str());
                s.append(" because it already exists");
                s
            },
            Error::Sdk(e) => String::from_str(e.context.as_str()),
            Error::Codec { message } => {
                let mut s = String::from_str("DynamoDB codec error: ");
                s.append(message.as_str());
                s
            },
        }
    }
}

/// Wraps a classified SDK failure with its context. A construction failure
/// means a bug in how the call was assembled rather than a service problem,
/// so an incorrect request is reported as a permanent fault; any other failure
/// keeps its own category and status.
pub fn raise_sdk_err(context: &str, cause: SdkAnomaly) -> (e: Error)
    ensures
        e matches Error::Sdk(s) && s.context@ == context@ && s.cause == cause && (s.category, s.status)
            == (if anomaly_category(cause) == ErrorCategory::Incorrect {
            (ErrorCategory::Fault, Status::Permanent)
        } else {
            (anomaly_category(cause), anomaly_status(cause))
        }),
{
    let c = cause.category();
    let (category, status) = if c == ErrorCategory::Incorrect {
        (ErrorCategory::Fault, Status::Permanent)
    } else {
        (c, cause.status())
    };
    Error::Sdk(DynamoSdkError { context: String::from_str(context), cause, category, status })
}

/// Wraps a request-builder failure as a permanent construction fault.
pub fn raise_build_err(context: &str, message: String) -> (e: Error)
    ensures
        e matches Error::Sdk(s) && s.context@ == context@ && s.cause
            == SdkAnomaly::ConstructionFailure(ConstructionFailure { message }) && s.category
            == ErrorCategory::Fault && s.status == Status::Permanent,
{
    Error::Sdk(
        DynamoSdkError {
            context: String::from_str(context),
            cause: SdkAnomaly::ConstructionFailure(ConstructionFailure { message }),
            category: ErrorCategory::Fault,
            status: Status::Permanent,
        },
    )
}

/// The conflict reported when a conditional write finds the item already there.
pub fn raise_conflict_err(community: CommunityId, version: SequenceId, entity: Entity) -> (e: Error)
    ensures
        e == (Error::AlreadyExists { community, version, entity }),
{
    Error::AlreadyExists { community, version, entity }
}

/// A codec failure described by `context`.
pub fn raise_codec_err(context: &str) -> (e: Error)
    ensures
        e matches Error::Codec { message } && message@ == context@,
{
    Error::Codec { message: String::from_str(context) }
}

} // verus!
