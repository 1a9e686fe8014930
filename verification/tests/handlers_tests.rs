use metri_engine::errors::{ErrorCode, RpcCode};
use metri_engine::handlers::{
    bulk_response, explore_values, operation_of, plan_bulk, plan_explore, plan_list, plan_query, plan_transact,
    resolve_tenant, settle_entity_id, transact_response, BulkData, BulkRows, ErrorFields, ExecOutcome, JsonValue,
    Principal, SubQuery, TransactInput,
};

fn s(x: &str) -> String {
    x.to_string()
}

fn obj(fields: Vec<(&str, JsonValue)>) -> JsonValue {
    JsonValue::Object(fields.into_iter().map(|(k, v)| (k.to_string(), v)).collect())
}

fn text(v: &JsonValue) -> Option<String> {
    match v {
        JsonValue::Str(t) => Some(t.clone()),
        _ => None,
    }
}

fn field<'a>(v: &'a JsonValue, key: &str) -> Option<&'a JsonValue> {
    match v {
        JsonValue::Object(f) => f.iter().find(|(k, _)| k == key).map(|(_, v)| v),
        _ => None,
    }
}

fn principal(tenant: &str) -> Principal {
    Principal { tenant_id: s(tenant), user_id: s("usr_01") }
}

fn outcome(is_error: bool) -> ExecOutcome {
    ExecOutcome {
        is_error,
        error: None,
        entity_id: None,
        result_entity_id: None,
        ingested_count: None,
        text: s("{\"status\":\"ok\"}"),
    }
}

#[test]
fn test_resolve_tenant_session_wins() {
    assert_eq!(resolve_tenant("tnt_a", "tnt_b"), "tnt_a");
    assert_eq!(resolve_tenant("system", "tnt_b"), "tnt_b");
    assert_eq!(resolve_tenant("system", ""), "system");
}

#[test]
fn test_operation_codes() {
    assert_eq!(operation_of(1), "CREATE");
    assert_eq!(operation_of(2), "UPDATE");
    assert_eq!(operation_of(3), "DELETE");
    assert_eq!(operation_of(0), "UNKNOWN");
    assert_eq!(operation_of(9), "UNKNOWN");
}

#[test]
fn test_plan_list_errors() {
    let e = plan_list("tnt_a", "", "", 10, 500, vec![]).unwrap_err();
    assert_eq!(e.code, RpcCode::InvalidArgument);
    assert_eq!(e.message, "entity_type es obligatorio");
    let e = plan_list("tnt_a", "", "sensor", 0, 500, vec![]).unwrap_err();
    assert_eq!(e.message, "limit es obligatorio y debe ser > 0 mientras no exista paginacion");
    let e = plan_list("tnt_a", "", "sensor", 501, 500, vec![]).unwrap_err();
    assert_eq!(e.code, RpcCode::InvalidArgument);
    assert_eq!(e.message, "limit 501 supera el maximo del servicio (500)");
}

#[test]
fn test_plan_list_puts_entity_type_first() {
    let p = plan_list("tnt_a", "tnt_b", "sensor", 500, 500, vec![(s("status"), s("on"))]).unwrap();
    assert_eq!(p.tenant_id, "tnt_a");
    assert_eq!(p.limit, 500);
    assert_eq!(p.filters, vec![(s("entity_type"), s("sensor")), (s("status"), s("on"))]);
}

#[test]
fn test_plan_explore_default_limit() {
    let p = plan_explore("system", "tnt_b", "sensor", "status", 0, true);
    assert_eq!(p.tenant_id, "tnt_b");
    assert_eq!(p.limit, 100);
    assert!(p.olap);
    assert_eq!(plan_explore("tnt_a", "", "sensor", "status", 7, false).limit, 7);
}

#[test]
fn test_explore_values_distinct_in_order() {
    let rows = vec![
        obj(vec![("status", JsonValue::Str(s("on")))]),
        obj(vec![("status", JsonValue::Number(s("3")))]),
        obj(vec![("status", JsonValue::Str(s("on")))]),
        obj(vec![("status", JsonValue::Str(s("")))]),
        obj(vec![("status", JsonValue::Bool(false))]),
        obj(vec![("status", JsonValue::Null)]),
        obj(vec![("other", JsonValue::Str(s("x")))]),
        JsonValue::Str(s("not a row")),
    ];
    assert_eq!(explore_values(&rows, "status"), vec![s("on"), s("3"), s("false")]);
}

#[test]
fn test_plan_transact_unwraps_data_and_checks_role_grants() {
    let req = TransactInput {
        tenant_id: s("tnt_b"),
        entity_type: s("role"),
        entity_id: s(""),
        action: 2,
        payload: Some(obj(vec![("data", obj(vec![("grants", JsonValue::Str(s("x:read")))]))])),
        suppress_events: true,
    };
    let p = plan_transact(&principal("tnt_a"), req);
    assert_eq!(p.tenant_id, "tnt_a");
    assert_eq!(p.operation, "UPDATE");
    assert!(p.check_grants);
    assert!(!p.validate_each_item);
    assert!(!p.check_group_hierarchy);
    assert!(p.suppress_events);
    assert_eq!(field(&p.payload, "grants").and_then(text), Some(s("x:read")));
    let p = settle_entity_id(p, s("rol_9"));
    assert_eq!(p.entity_id, "rol_9");
    assert_eq!(field(&p.payload, "id").and_then(text), Some(s("rol_9")));
}

#[test]
fn test_transact_create_ignores_proposed_id() {
    let req = TransactInput {
        tenant_id: s(""),
        entity_type: s("user_group"),
        entity_id: s("grp_1"),
        action: 1,
        payload: None,
        suppress_events: false,
    };
    let p = plan_transact(&principal("system"), req);
    assert_eq!(p.tenant_id, "system");
    assert!(p.proposed_id_ignored);
    assert!(p.check_group_hierarchy);
    let p = settle_entity_id(p, s(""));
    assert_eq!(p.entity_id, "grp_1");
    assert!(field(&p.payload, "id").is_none());
}

#[test]
fn test_transact_update_keeps_existing_identity() {
    let req = TransactInput {
        tenant_id: s(""),
        entity_type: s("sensor"),
        entity_id: s("sen_1"),
        action: 2,
        payload: Some(obj(vec![("ulid", JsonValue::Str(s("u1")))])),
        suppress_events: false,
    };
    let p = settle_entity_id(plan_transact(&principal("tnt_a"), req), s("other"));
    assert_eq!(p.entity_id, "sen_1");
    assert!(field(&p.payload, "id").is_none());
}

#[test]
fn test_transact_response_cases() {
    let r = transact_response(outcome(true)).unwrap_err();
    assert_eq!(r.code, ErrorCode::Janus500);
    assert_eq!(r.detail, "IOP devolvió status=error sin objeto 'error'");
    let mut o = outcome(true);
    o.error = Some(ErrorFields { code: None, description: Some(s("cuota")), context: Some(JsonValue::Null) });
    let rep = transact_response(o).unwrap();
    assert!(!rep.status.success);
    assert_eq!(rep.status.error_code, "UNKNOWN");
    assert_eq!(rep.status.error_message, "cuota");
    assert!(rep.status.error_context.is_none());
    let mut o = outcome(false);
    o.entity_id = Some(s(""));
    o.result_entity_id = Some(s("sen_2"));
    let rep = transact_response(o).unwrap();
    assert!(rep.status.success);
    assert_eq!(rep.entity_id, "sen_2");
    assert_eq!(rep.status.error_message, "");
    let rep = transact_response(outcome(false)).unwrap();
    assert_eq!(rep.entity_id, "");
    assert_eq!(rep.status.error_message, "{\"status\":\"ok\"}");
}

#[test]
fn test_plan_bulk_errors() {
    let e = plan_bulk(&principal("tnt_a"), "", "sensor", 1, None).unwrap_err();
    assert_eq!(e.code, RpcCode::InvalidArgument);
    assert_eq!(e.message, "data (RowSet) is required");
    let e = plan_bulk(&principal("tnt_a"), "", "sensor", 1, Some(BulkData { columns: vec![], rows: None })).unwrap_err();
    assert_eq!(e.message, "payload_strategy is required");
    let e = plan_bulk(&principal("tnt_a"), "", "sensor", 1, Some(BulkData { columns: vec![], rows: Some(BulkRows::Other) }))
        .unwrap_err();
    assert_eq!(e.code, RpcCode::Unimplemented);
    assert_eq!(e.message, "Only RowsJson is supported for BulkIngest right now");
}

#[test]
fn test_plan_bulk_builds_rows() {
    let data = BulkData {
        columns: vec![s("name"), s("name")],
        rows: Some(BulkRows::RowsJson(vec![vec![
            JsonValue::Str(s("a")),
            JsonValue::Str(s("b")),
            JsonValue::Str(s("dropped")),
        ]])),
    };
    let p = plan_bulk(&principal("tnt_a"), "", "role", 1, Some(data)).unwrap();
    assert_eq!(p.operation, "CREATE");
    assert!(p.check_grants);
    assert!(p.invalidates_principals);
    assert_eq!(p.rows.len(), 1);
    match &p.rows[0] {
        JsonValue::Object(f) => {
            assert_eq!(f.len(), 1);
            assert_eq!(text(&f[0].1), Some(s("b")));
        },
        _ => panic!("row is not an object"),
    }
}

#[test]
fn test_bulk_response_counts() {
    let mut o = outcome(false);
    o.ingested_count = Some(42);
    let r = bulk_response(o);
    assert!(r.status.success);
    assert_eq!(r.ingested_count, 42);
    assert!(r.invalidate);
    let mut o = outcome(true);
    o.error = Some(ErrorFields { code: Some(s("QUOTA_001")), description: None, context: None });
    let r = bulk_response(o);
    assert!(!r.status.success);
    assert_eq!(r.status.error_code, "QUOTA_001");
    assert_eq!(r.ingested_count, 0);
    assert!(!r.invalidate);
}

#[test]
fn test_plan_query_entities_and_action() {
    let qs = vec![
        SubQuery { entity: s("sensor"), output_cast: 3 },
        SubQuery { entity: s("alarm"), output_cast: 6 },
        SubQuery { entity: s("sensor"), output_cast: 1 },
        SubQuery { entity: s(""), output_cast: 1 },
    ];
    let p = plan_query("tnt_a", "", &qs);
    assert_eq!(p.entities, vec![s("alarm"), s("sensor")]);
    assert_eq!(p.target_entity, "alarm");
    assert_eq!(p.target_domains, "alarm,sensor");
    assert_eq!(p.action, "EXPORT");
    let p = plan_query("tnt_a", "", &vec![]);
    assert_eq!(p.target_entity, "project");
    assert_eq!(p.target_domains, "project");
    assert_eq!(p.action, "VIEW");
}
