use metri_engine::errors::{DomainError, ErrorCode, RpcCode};
use metri_engine::status::{status_from_error, tonic_code};

#[test]
fn catalogue_names_map_to_codes() {
    assert_eq!(tonic_code("RESOURCE_EXHAUSTED"), RpcCode::ResourceExhausted);
    assert_eq!(tonic_code("UNAUTHENTICATED"), RpcCode::Unauthenticated);
    assert_eq!(tonic_code("DEADLINE_EXCEEDED"), RpcCode::DeadlineExceeded);
    assert_eq!(tonic_code("ABORTED"), RpcCode::Aborted);
    assert_eq!(tonic_code("OK"), RpcCode::Success);
    assert_eq!(tonic_code("DATA_LOSS"), RpcCode::DataLoss);
    assert_eq!(tonic_code("whatever"), RpcCode::Internal);
    assert_eq!(tonic_code("not_found"), RpcCode::Internal);
}

#[test]
fn status_carries_the_error_as_json() {
    let e = DomainError::new(ErrorCode::Quota001, "sin \"cupo\"".to_string()).with_stage("quota");
    let s = status_from_error(&e, Some("RESOURCE_EXHAUSTED"));
    assert_eq!(s.code, RpcCode::ResourceExhausted);
    assert_eq!(
        s.message,
        "{\"canonical_code\":\"QUOTA_001\",\"detail\":\"sin \\\"cupo\\\"\",\"retryable\":false,\"stage\":\"quota\"}"
    );
    let v: serde_json::Value = serde_json::from_str(&s.message).unwrap();
    assert_eq!(v["detail"], "sin \"cupo\"");
}

#[test]
fn without_catalogue_entry_the_status_is_internal() {
    let e = DomainError::new(ErrorCode::Auth401, "x".to_string());
    assert_eq!(status_from_error(&e, None).code, RpcCode::Internal);
}
