use metri_engine::handlers::JsonValue;
use metri_engine::iop::janus_step::keep_route_result;
use metri_engine::query_cache::serve_on_read;

fn s(x: &str) -> String {
    x.to_string()
}

fn obj(fields: Vec<(&str, JsonValue)>) -> JsonValue {
    JsonValue::Object(fields.into_iter().map(|(k, v)| (k.to_string(), v)).collect())
}

fn text_at(fields: &[(String, JsonValue)], key: &str) -> Option<String> {
    fields.iter().find(|(k, _)| k == key).and_then(|(_, v)| match v {
        JsonValue::Str(t) => Some(t.clone()),
        _ => None,
    })
}

#[test]
fn test_route_result_added_when_absent() {
    let mut request = vec![(s("tenant_id"), JsonValue::Str(s("tnt_01")))];
    keep_route_result(&mut request, obj(vec![("entity_id", JsonValue::Str(s("e1")))]));
    assert_eq!(request.len(), 2);
    assert_eq!(request[1].0, "result");
    match &request[1].1 {
        JsonValue::Object(f) => assert_eq!(text_at(f, "entity_id"), Some(s("e1"))),
        _ => panic!("result is not an object"),
    }
}

#[test]
fn test_route_result_merged_into_existing() {
    let mut request = vec![(
        s("result"),
        obj(vec![("entity_id", JsonValue::Str(s("old"))), ("tx_id", JsonValue::Str(s("t1")))]),
    )];
    keep_route_result(
        &mut request,
        obj(vec![("entity_id", JsonValue::Str(s("new"))), ("ingested_count", JsonValue::Number(s("3")))]),
    );
    assert_eq!(request.len(), 1);
    match &request[0].1 {
        JsonValue::Object(f) => {
            assert_eq!(f.len(), 3);
            assert_eq!(text_at(f, "entity_id"), Some(s("new")));
            assert_eq!(text_at(f, "tx_id"), Some(s("t1")));
        },
        _ => panic!("result is not an object"),
    }
}

#[test]
fn test_route_result_not_object_left_alone() {
    let mut request = vec![(s("result"), JsonValue::Str(s("kept")))];
    keep_route_result(&mut request, obj(vec![("entity_id", JsonValue::Str(s("e1")))]));
    assert_eq!(text_at(&request, "result"), Some(s("kept")));
}

#[test]
fn test_cache_read_serves_by_generation() {
    assert!(serve_on_read(false, Some(1), Some(2), 1_000_010, 1_000_000));
    assert!(!serve_on_read(true, Some(1), Some(2), 1_000_010, 1_000_000));
    assert!(serve_on_read(true, Some(2), Some(2), 1_000_010, 1_000_000));
    assert!(serve_on_read(true, None, Some(2), 1_000_010, 1_000_000));
}

#[test]
fn test_expired_entry_is_logical_miss() {
    // An entry written at 1_000_000 with a 10-second TTL, read 11 seconds later.
    let written = 1_000_000i64;
    let expires_at = written + 10;
    assert!(serve_on_read(false, None, None, expires_at, written));
    assert!(!serve_on_read(false, None, None, expires_at, written + 11));
    assert!(!serve_on_read(true, Some(3), Some(3), expires_at, written + 11));
}
