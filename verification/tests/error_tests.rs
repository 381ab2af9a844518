use fruit_domain::error::{
    DbError, Error, ErrorCategory, RetryableStorageLayerError, Status, StorageFailure, StorageLayerError,
};

#[test]
fn storage_layer_error_build_display() {
    let err = StorageLayerError::build("something went wrong", ErrorCategory::Conflict, Status::Permanent);
    assert_eq!(err.to_display_string(), "Storage layer error: something went wrong");
}

#[test]
fn storage_layer_error_build_preserves_conflict_category() {
    let Error::StorageLayerError(inner) = StorageLayerError::build("msg", ErrorCategory::Conflict, Status::Permanent) else {
        panic!("wrong variant")
    };
    assert_eq!(inner.category(), ErrorCategory::Conflict);
}

#[test]
fn storage_layer_error_build_preserves_fault_category() {
    let Error::StorageLayerError(inner) = StorageLayerError::build("msg", ErrorCategory::Fault, Status::Permanent) else {
        panic!("wrong variant")
    };
    assert_eq!(inner.category(), ErrorCategory::Fault);
}

#[test]
fn storage_layer_error_build_preserves_permanent_status() {
    let Error::StorageLayerError(inner) = StorageLayerError::build("msg", ErrorCategory::Conflict, Status::Permanent) else {
        panic!("wrong variant")
    };
    assert_eq!(inner.status(), Status::Permanent);
}

#[test]
fn storage_layer_error_build_preserves_temporary_status() {
    let Error::StorageLayerError(inner) = StorageLayerError::build("msg", ErrorCategory::Unavailable, Status::Temporary) else {
        panic!("wrong variant")
    };
    assert_eq!(inner.status(), Status::Temporary);
}

#[test]
fn storage_layer_error_build_source_is_none() {
    let Error::StorageLayerError(inner) = StorageLayerError::build("msg", ErrorCategory::Conflict, Status::Permanent) else {
        panic!("wrong variant")
    };
    assert!(inner.source().is_none());
}

#[test]
fn retryable_storage_layer_error_display() {
    let err = RetryableStorageLayerError { message: "try again".to_string() };
    assert_eq!(err.to_display_string(), "Retryable storage layer error: try again");
}

#[test]
fn retryable_storage_layer_error_has_unavailable_category() {
    let err = RetryableStorageLayerError { message: "msg".to_string() };
    assert_eq!(err.category(), ErrorCategory::Unavailable);
}

#[test]
fn retryable_storage_layer_error_has_temporary_status() {
    let err = RetryableStorageLayerError { message: "msg".to_string() };
    assert_eq!(err.status(), Status::Temporary);
}

#[test]
fn retryable_storage_layer_error_source_is_none() {
    let err = RetryableStorageLayerError { message: "msg".to_string() };
    assert!(err.source().is_none());
}

#[test]
fn error_storage_layer_variant_display() {
    let err = StorageLayerError::build("oops", ErrorCategory::Conflict, Status::Permanent);
    assert_eq!(err.to_display_string(), "Storage layer error: oops");
}

#[test]
fn error_retryable_storage_layer_variant_display() {
    let err = Error::RetryableStorageLayerError(RetryableStorageLayerError { message: "try again".to_string() });
    assert_eq!(err.to_display_string(), "Retryable storage layer error: try again");
}

#[test]
fn error_storage_layer_variant_has_conflict_category() {
    let err = StorageLayerError::build("msg", ErrorCategory::Conflict, Status::Permanent);
    assert_eq!(err.category(), ErrorCategory::Conflict);
}

#[test]
fn error_storage_layer_variant_has_fault_category() {
    let err = StorageLayerError::build("msg", ErrorCategory::Fault, Status::Permanent);
    assert_eq!(err.category(), ErrorCategory::Fault);
}

#[test]
fn error_retryable_storage_layer_variant_has_unavailable_category() {
    let err = Error::RetryableStorageLayerError(RetryableStorageLayerError { message: "msg".to_string() });
    assert_eq!(err.category(), ErrorCategory::Unavailable);
}

#[test]
fn error_storage_layer_variant_has_permanent_status() {
    let err = StorageLayerError::build("msg", ErrorCategory::Conflict, Status::Permanent);
    assert_eq!(err.status(), Status::Permanent);
}

#[test]
fn error_storage_layer_variant_has_temporary_status() {
    let err = StorageLayerError::build("msg", ErrorCategory::Unavailable, Status::Temporary);
    assert_eq!(err.status(), Status::Temporary);
}

#[test]
fn error_retryable_storage_layer_variant_has_temporary_status() {
    let err = Error::RetryableStorageLayerError(RetryableStorageLayerError { message: "msg".to_string() });
    assert_eq!(err.status(), Status::Temporary);
}

#[test]
fn error_storage_layer_variant_source_is_none() {
    let err = StorageLayerError::build("msg", ErrorCategory::Conflict, Status::Permanent);
    assert!(err.source().is_none());
}

#[test]
fn error_retryable_storage_layer_variant_source_is_none() {
    let err = Error::RetryableStorageLayerError(RetryableStorageLayerError { message: "msg".to_string() });
    assert!(err.source().is_none());
}

#[test]
fn from_storage_layer_error_produces_correct_variant() {
    let Error::StorageLayerError(inner) = StorageLayerError::build("x", ErrorCategory::Conflict, Status::Permanent) else {
        panic!("wrong variant")
    };
    let err = Error::from(inner);
    assert!(matches!(err, Error::StorageLayerError(_)));
}

#[test]
fn from_retryable_storage_layer_error_produces_correct_variant() {
    let inner = RetryableStorageLayerError { message: "x".to_string() };
    let err = Error::from(inner);
    assert!(matches!(err, Error::RetryableStorageLayerError(_)));
}

#[test]
fn error_implements_db_error() {
    fn assert_db_error<E: DbError>() {}
    assert_db_error::<Error>();
}

#[test]
fn raise_propagates_conflict_category() {
    let db_err = StorageLayerError::build("low-level failure", ErrorCategory::Conflict, Status::Permanent);
    let domain_err = StorageLayerError::raise("high-level failure", &db_err);
    assert_eq!(domain_err.category(), ErrorCategory::Conflict);
}

#[test]
fn raise_propagates_fault_category() {
    let db_err = StorageLayerError::build("internal error", ErrorCategory::Fault, Status::Permanent);
    let domain_err = StorageLayerError::raise("high-level failure", &db_err);
    assert_eq!(domain_err.category(), ErrorCategory::Fault);
}

#[test]
fn raise_propagates_permanent_status() {
    let db_err = StorageLayerError::build("conflict", ErrorCategory::Conflict, Status::Permanent);
    let domain_err = StorageLayerError::raise("could not write", &db_err);
    assert_eq!(domain_err.status(), Status::Permanent);
}

#[test]
fn raise_propagates_temporary_status() {
    let db_err = Error::RetryableStorageLayerError(RetryableStorageLayerError { message: "connection failed".to_string() });
    let domain_err = StorageLayerError::raise("could not load community", &db_err);
    assert_eq!(domain_err.status(), Status::Temporary);
}

#[test]
fn raise_display_shows_only_domain_message() {
    let db_err = Error::RetryableStorageLayerError(RetryableStorageLayerError { message: "connection failed".to_string() });
    let domain_err = StorageLayerError::raise("could not load community", &db_err);
    assert_eq!(domain_err.to_display_string(), "Storage layer error: could not load community");
}

#[test]
fn raise_takes_category_and_status_of_a_port_failure() {
    let failure = StorageFailure { category: ErrorCategory::Busy, status: Status::Temporary };
    let err = StorageLayerError::raise("failed to read", &failure);
    assert_eq!(
        err,
        Error::StorageLayerError(StorageLayerError {
            message: "failed to read".to_string(),
            category: ErrorCategory::Busy,
            status: Status::Temporary,
        })
    );
}

#[test]
fn grant_interrupted_is_temporary_and_interrupted() {
    let err = Error::GrantInterrupted("failed to create grant effect".to_string());
    assert_eq!(err.category(), ErrorCategory::Interrupted);
    assert_eq!(err.status(), Status::Temporary);
    assert_eq!(err.to_display_string(), "Grant interrupted: failed to create grant effect");
}
