use metri_engine::errors::RpcCode;
use metri_engine::interceptors::{extract_token, skew_tolerance};

#[test]
fn sid_header_wins_and_is_trimmed() {
    assert_eq!(extract_token(Some("  abc \t"), Some("Bearer zzz")).unwrap(), "abc");
}

#[test]
fn bearer_prefix_is_dropped_from_authorization() {
    assert_eq!(extract_token(None, Some(" Bearer  tok ")).unwrap(), "tok");
    assert_eq!(extract_token(None, Some("bearer tok")).unwrap(), "tok");
    assert_eq!(extract_token(None, Some("BEARER tok")).unwrap(), "BEARER tok");
    assert_eq!(extract_token(None, Some("tok")).unwrap(), "tok");
}

#[test]
fn no_header_is_refused() {
    let e = extract_token(None, None).unwrap_err();
    assert_eq!(e.code, RpcCode::Unauthenticated);
    assert_eq!(e.message, "Missing authorization or sid header [Fail-Closed]");
}

#[test]
fn skew_is_wider_in_local_environments() {
    assert_eq!(skew_tolerance(Some("local")), 86_400);
    assert_eq!(skew_tolerance(Some("development")), 86_400);
    assert_eq!(skew_tolerance(Some("production")), 300);
    assert_eq!(skew_tolerance(None), 300);
}
