use metri_engine::errors::RpcCode;
use metri_engine::handlers::JsonValue;
use metri_engine::routing::{authorize_routing, match_routing_request, RoutingRequest, RuleRow};

fn s(x: &str) -> String {
    x.to_string()
}

fn obj(fields: Vec<(&str, JsonValue)>) -> JsonValue {
    JsonValue::Object(fields.into_iter().map(|(k, v)| (k.to_string(), v)).collect())
}

fn request(payload: &[u8]) -> RoutingRequest {
    RoutingRequest {
        tenant_id: s("tnt_01"),
        entity_name: s("sensor"),
        trigger_type: s("CREATE"),
        cdc_payload_json: payload.to_vec(),
    }
}

#[test]
fn test_authorize_routing_system_only() {
    assert!(authorize_routing("system").is_ok());
    let e = authorize_routing("tnt_01").unwrap_err();
    assert_eq!(e.code, RpcCode::PermissionDenied);
    assert_eq!(e.message, "Acceso denegado: Se requiere rol de sistema para la consulta de ruteo");
}

#[test]
fn test_match_routing_rejects_bad_payload() {
    let e = match_routing_request(&request(b"{nope"), &vec![], &vec![]).unwrap_err();
    assert_eq!(e.code, RpcCode::InvalidArgument);
    assert!(e.message.starts_with("Payload JSON inválido: "));
}

#[test]
fn test_match_routing_rules_and_webhook_defaults() {
    let rules = vec![
        RuleRow {
            row: obj(vec![
                ("id", JsonValue::Str(s("r1"))),
                ("rule_code", JsonValue::Str(s("RC1"))),
                ("description", JsonValue::Str(s("Alta"))),
                ("detail_type_output", JsonValue::Str(s("sensor.created"))),
            ]),
            passes: true,
        },
        RuleRow { row: obj(vec![("id", JsonValue::Str(s("r2")))]), passes: false },
    ];
    let webhooks = vec![
        obj(vec![
            ("target_url", JsonValue::Str(s("https://a"))),
            ("subscribed_rule_ids", JsonValue::Array(vec![JsonValue::Str(s("r1"))])),
        ]),
        obj(vec![
            ("target_url", JsonValue::Str(s("https://b"))),
            ("http_method", JsonValue::Str(s("PUT"))),
            ("max_retries", JsonValue::Number(s("7"))),
            ("subscribed_rule_ids", JsonValue::Str(s("r1"))),
        ]),
        obj(vec![("subscribed_rule_ids", JsonValue::Str(s("r2")))]),
    ];
    let m = match_routing_request(&request(b"{\"a\":1}"), &rules, &webhooks).unwrap();
    assert_eq!(m.matched_rules.len(), 1);
    let r = &m.matched_rules[0];
    assert_eq!(r.rule_code, "RC1");
    assert_eq!(r.name, "Alta");
    assert_eq!(r.detail_type_output, "sensor.created");
    assert_eq!(r.priority, 1);
    assert_eq!(r.webhooks.len(), 2);
    assert_eq!(r.webhooks[0].http_method, "POST");
    assert_eq!(r.webhooks[0].auth_type, "NONE");
    assert_eq!(r.webhooks[0].max_retries, 3);
    assert_eq!(r.webhooks[0].timeout_seconds, 10);
    assert_eq!(r.webhooks[1].target_url, "https://b");
    assert_eq!(r.webhooks[1].http_method, "PUT");
    assert_eq!(r.webhooks[1].max_retries, 7);
}
