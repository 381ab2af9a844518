use fruit_domain::error::{DbError, ErrorCategory, Status};
use fruit_domain::ids::{CommunityId, SequenceId};
use fruit_domain::storage_error::{
    raise_build_err, raise_codec_err, raise_conflict_err, raise_sdk_err, ConstructionFailure, DispatchFailure,
    DynamoSdkError, Entity, Error, ResponseError, SdkAnomaly, ServiceError, TimeoutError,
};

fn community_id() -> CommunityId {
    CommunityId::from_uuid_bytes(&[1u8; 16])
}

fn seq(n: u64) -> SequenceId {
    SequenceId::new(n)
}

#[test]
fn raise_codec_err_produces_codec_variant() {
    let err = raise_codec_err("test context");
    assert!(matches!(err, Error::Codec { .. }));
}

#[test]
fn raise_codec_err_message_matches_context() {
    let err = raise_codec_err("test context");
    let Error::Codec { message } = &err else {
        panic!("expected Codec variant");
    };
    assert_eq!(message, "test context");
}

#[test]
fn raise_codec_err_display_contains_codec_prefix() {
    let err = raise_codec_err("test context");
    let display = err.to_display_string();
    assert!(display.contains("DynamoDB codec error"), "display was: {display}");
    assert_eq!(display, "DynamoDB codec error: test context");
}

#[test]
fn raise_conflict_err_produces_already_exists_event() {
    let cid = community_id();
    let err = raise_conflict_err(cid, seq(5), Entity::Event);
    let Error::AlreadyExists { community, version, entity } = &err else {
        panic!("expected AlreadyExists, got {:?}", &err);
    };
    assert_eq!(*community, cid);
    assert_eq!(version.0, 5);
    assert!(matches!(entity, Entity::Event));
}

#[test]
fn raise_conflict_err_produces_already_exists_community() {
    let err = raise_conflict_err(community_id(), seq(3), Entity::Community);
    let Error::AlreadyExists { entity, .. } = &err else {
        panic!("expected AlreadyExists");
    };
    assert!(matches!(entity, Entity::Community));
}

#[test]
fn raise_conflict_err_produces_already_exists_effect() {
    let err = raise_conflict_err(community_id(), seq(1), Entity::Effect);
    let Error::AlreadyExists { entity, .. } = &err else {
        panic!("expected AlreadyExists");
    };
    assert!(matches!(entity, Entity::Effect));
}

#[test]
fn raise_sdk_err_throttle_maps_to_busy_temporary() {
    let cause = SdkAnomaly::ServiceError(ServiceError::new(
        Some("ProvisionedThroughputExceededException"),
        "throttled".to_string(),
    ));
    let err = raise_sdk_err("throttle ctx", cause);
    assert_eq!(err.category(), ErrorCategory::Busy);
    assert_eq!(err.status(), Status::Temporary);
}

#[test]
fn raise_sdk_err_construction_failure_maps_to_fault_permanent() {
    let cause = SdkAnomaly::ConstructionFailure(ConstructionFailure { message: "bad request build".to_string() });
    let err = raise_sdk_err("construction ctx", cause);
    assert_eq!(err.status(), Status::Permanent);
    assert_eq!(err.category(), ErrorCategory::Fault);
}

#[test]
fn raise_sdk_err_internal_server_error_maps_to_unavailable_temporary() {
    let cause = SdkAnomaly::ServiceError(ServiceError::new(Some("InternalServerError"), "ise".to_string()));
    let err = raise_sdk_err("ise ctx", cause);
    assert_eq!(err.category(), ErrorCategory::Unavailable);
    assert_eq!(err.status(), Status::Temporary);
}

#[test]
fn dynamo_sdk_error_display_shows_context() {
    let cause = SdkAnomaly::ConstructionFailure(ConstructionFailure { message: "inner".to_string() });
    let err = raise_sdk_err("my context string", cause);
    let display = err.to_display_string();
    assert!(display.contains("my context string"), "got: {display}");
}

#[test]
fn dynamo_sdk_error_source_is_some() {
    let cause = SdkAnomaly::ConstructionFailure(ConstructionFailure { message: "inner".to_string() });
    let err = raise_sdk_err("ctx", cause);
    let Error::Sdk(sdk_err) = &err else {
        panic!("expected Sdk variant");
    };
    assert!(sdk_err.source().is_some());
}

#[test]
fn already_exists_display_contains_community_and_version() {
    let cid = community_id();
    let err = Error::AlreadyExists { community: cid, version: seq(7), entity: Entity::Event };
    let s = err.to_display_string();
    assert!(s.contains(&cid.to_uuid_string()), "display missing community id: {s}");
    assert!(s.contains('7'), "display missing version: {s}");
    assert_eq!(
        s,
        "could not write Event at version 7 in community 01010101-0101-0101-0101-010101010101 because it already exists"
    );
}

#[test]
fn timeout_variant_is_interrupted_temporary() {
    let anomaly = SdkAnomaly::TimeoutError(TimeoutError { message: "timeout".to_string() });
    assert_eq!(anomaly.category(), ErrorCategory::Interrupted);
    assert_eq!(anomaly.status(), Status::Temporary);
}

#[test]
fn dispatch_failure_timeout_connector_maps_to_interrupted_temporary() {
    let anomaly = SdkAnomaly::DispatchFailure(DispatchFailure::new(true, false, false, "conn timeout".to_string()));
    assert_eq!(anomaly.category(), ErrorCategory::Interrupted);
    assert_eq!(anomaly.status(), Status::Temporary);
}

#[test]
fn dispatch_failure_user_connector_maps_to_incorrect_permanent() {
    let anomaly = SdkAnomaly::DispatchFailure(DispatchFailure::new(false, true, false, "user".to_string()));
    assert_eq!(anomaly.category(), ErrorCategory::Incorrect);
    assert_eq!(anomaly.status(), Status::Permanent);
}

#[test]
fn dispatch_failure_io_connector_maps_to_unavailable_temporary() {
    let anomaly = SdkAnomaly::DispatchFailure(DispatchFailure::new(false, false, true, "io".to_string()));
    assert_eq!(anomaly.category(), ErrorCategory::Unavailable);
    assert_eq!(anomaly.status(), Status::Temporary);
}

#[test]
fn dispatch_failure_other_connector_maps_to_fault_permanent() {
    let anomaly = SdkAnomaly::DispatchFailure(DispatchFailure::new(false, false, false, "other".to_string()));
    assert_eq!(anomaly.category(), ErrorCategory::Fault);
    assert_eq!(anomaly.status(), Status::Permanent);
}

#[test]
fn response_error_variant_is_fault_permanent() {
    let anomaly = SdkAnomaly::ResponseError(ResponseError { message: "parse failed".to_string() });
    assert_eq!(anomaly.category(), ErrorCategory::Fault);
    assert_eq!(anomaly.status(), Status::Permanent);
}

#[test]
fn service_error_unknown_code_maps_to_fault_permanent() {
    let anomaly = SdkAnomaly::ServiceError(ServiceError::new(Some("ConditionalCheckFailedException"), "x".to_string()));
    assert_eq!(anomaly.category(), ErrorCategory::Fault);
    assert_eq!(anomaly.status(), Status::Permanent);
}

#[test]
fn timeout_error_display_contains_inner_message() {
    let te = TimeoutError { message: "timed out msg".to_string() };
    assert!(te.to_display_string().contains("timed out msg"));
}

#[test]
fn dispatch_failure_direct_display() {
    let df = DispatchFailure { category: ErrorCategory::Fault, status: Status::Permanent, message: "dispatch msg".to_string() };
    assert!(df.to_display_string().contains("dispatch msg"));
}

#[test]
fn dispatch_failure_direct_category() {
    let df = DispatchFailure { category: ErrorCategory::Unavailable, status: Status::Temporary, message: "x".to_string() };
    assert_eq!(SdkAnomaly::DispatchFailure(df).category(), ErrorCategory::Unavailable);
}

#[test]
fn dispatch_failure_direct_status() {
    let df = DispatchFailure { category: ErrorCategory::Unavailable, status: Status::Temporary, message: "x".to_string() };
    assert_eq!(SdkAnomaly::DispatchFailure(df).status(), Status::Temporary);
}

#[test]
fn response_error_display_contains_inner_message() {
    let re = ResponseError { message: "response msg".to_string() };
    assert!(re.to_display_string().contains("response msg"));
}

#[test]
fn service_error_direct_display() {
    let se = ServiceError { category: ErrorCategory::Busy, status: Status::Temporary, message: "service msg".to_string() };
    assert!(se.to_display_string().contains("service msg"));
}

#[test]
fn service_error_direct_category() {
    let se = ServiceError { category: ErrorCategory::Busy, status: Status::Temporary, message: "x".to_string() };
    assert_eq!(SdkAnomaly::ServiceError(se).category(), ErrorCategory::Busy);
}

#[test]
fn service_error_direct_status() {
    let se = ServiceError { category: ErrorCategory::Busy, status: Status::Temporary, message: "x".to_string() };
    assert_eq!(SdkAnomaly::ServiceError(se).status(), Status::Temporary);
}

#[test]
fn throttling_codes_are_busy_and_unknown_or_missing_codes_are_faults() {
    for code in ["ProvisionedThroughputExceededException", "RequestLimitExceeded", "ThrottlingException"] {
        let se = ServiceError::new(Some(code), String::new());
        assert_eq!((se.category, se.status), (ErrorCategory::Busy, Status::Temporary));
    }
    for code in ["InternalServerError", "ServiceUnavailable"] {
        let se = ServiceError::new(Some(code), String::new());
        assert_eq!((se.category, se.status), (ErrorCategory::Unavailable, Status::Temporary));
    }
    let se = ServiceError::new(None, String::new());
    assert_eq!((se.category, se.status), (ErrorCategory::Fault, Status::Permanent));
}

#[test]
fn build_errors_are_permanent_faults() {
    let err = raise_build_err("building put", "missing key".to_string());
    assert_eq!(err.category(), ErrorCategory::Fault);
    assert_eq!(err.status(), Status::Permanent);
    assert_eq!(
        err,
        Error::Sdk(DynamoSdkError {
            context: "building put".to_string(),
            cause: SdkAnomaly::ConstructionFailure(ConstructionFailure { message: "missing key".to_string() }),
            category: ErrorCategory::Fault,
            status: Status::Permanent,
        })
    );
}

#[test]
fn conflicts_are_permanent_conflicts_and_codec_errors_permanent_faults() {
    let conflict = raise_conflict_err(community_id(), seq(2), Entity::Community);
    assert_eq!(conflict.category(), ErrorCategory::Conflict);
    assert_eq!(conflict.status(), Status::Permanent);
    let codec = raise_codec_err("bad");
    assert_eq!(codec.category(), ErrorCategory::Fault);
    assert_eq!(codec.status(), Status::Permanent);
}
