use metri_engine::eda::check_payload;
use metri_engine::errors::RpcCode;
use metri_engine::eda::{
    route_batch, route_event, watchdog_tenants, EdaMatchRequest, EventToRoute, ResetTally, RoutingRule,
    WebhookEndpoint,
};

fn request(id: &str, payload: &[u8]) -> EdaMatchRequest {
    EdaMatchRequest {
        outbox_id: id.to_string(),
        tenant_id: "tnt_01".to_string(),
        entity_name: "sensor".to_string(),
        trigger_type: "CREATE".to_string(),
        cdc_payload_json: payload.to_vec(),
    }
}

fn rule(id: &str, detail: &str, passes: bool) -> RoutingRule {
    RoutingRule { id: id.to_string(), detail_type_output: detail.to_string(), passes }
}

fn hook(url: &str, token: &str, rules: &[&str]) -> WebhookEndpoint {
    WebhookEndpoint {
        target_url: url.to_string(),
        auth_token: token.to_string(),
        subscribed_rule_ids: rules.iter().map(|r| r.to_string()).collect(),
    }
}

#[test]
fn matching_rules_route_to_their_subscribed_webhooks_in_order() {
    let req = request("ob_1", b"{\"a\":1}");
    let rules = vec![rule("r1", "first", true), rule("r2", "second", false), rule("r3", "third", true)];
    let hooks = vec![hook("https://a", "ta", &["r3", "r1"]), hook("https://b", "tb", &["r2"]), hook("https://c", "", &["r3"])];
    let res = route_event(&req, &rules, &hooks).expect("two rules match");
    assert_eq!(res.outbox_id, "ob_1");
    assert_eq!(res.detail_type_output, "third", "the last matching rule names the detail type");
    let urls: Vec<&str> = res.destinations.iter().map(|d| d.webhook_url.as_str()).collect();
    assert_eq!(urls, vec!["https://a", "https://a", "https://c"]);
    assert_eq!(res.destinations[0].secret_token_cipher, "ta");
    assert!(res.destinations.iter().all(|d| d.prepared_payload_base64 == "eyJhIjoxfQ=="));
}

#[test]
fn no_matching_rule_leaves_the_event_unmatched() {
    let req = request("ob_2", b"{}");
    assert!(route_event(&req, &vec![rule("r1", "x", false)], &vec![hook("u", "t", &["r1"])]).is_none());
    assert!(route_event(&req, &vec![], &vec![]).is_none());
}

#[test]
fn a_matching_rule_without_webhooks_still_matches() {
    let req = request("ob_3", b"");
    let res = route_event(&req, &vec![rule("r1", "only", true)], &vec![]).unwrap();
    assert!(res.destinations.is_empty());
    assert_eq!(res.detail_type_output, "only");
}

#[test]
fn batch_keeps_order_of_matched_and_unmatched() {
    let events = vec![
        EventToRoute { request: request("a", b"1"), rules: vec![rule("r", "d", true)], webhooks: vec![] },
        EventToRoute { request: request("b", b"2"), rules: vec![], webhooks: vec![] },
        EventToRoute { request: request("c", b"3"), rules: vec![rule("r", "e", true)], webhooks: vec![] },
        EventToRoute { request: request("d", b"4"), rules: vec![rule("r", "e", false)], webhooks: vec![] },
    ];
    let out = route_batch(&events);
    let matched: Vec<&str> = out.routing_results.iter().map(|r| r.outbox_id.as_str()).collect();
    assert_eq!(matched, vec!["a", "c"]);
    assert_eq!(out.unmatched_outbox_ids, vec!["b".to_string(), "d".to_string()]);
}

#[test]
fn watchdog_sweeps_the_named_tenants_or_the_local_one() {
    assert_eq!(watchdog_tenants(Some(" tnt_a, ,tnt_b ,")), vec!["tnt_a".to_string(), "tnt_b".to_string()]);
    assert_eq!(watchdog_tenants(Some(" , ")), vec!["tnt_01".to_string()]);
    assert_eq!(watchdog_tenants(None), vec!["tnt_01".to_string()]);
}

#[test]
fn reset_tally_counts_and_notes_only_real_resets() {
    let mut tally = ResetTally::new();
    tally.record("t1", &Ok(3));
    tally.record("t2", &Ok(0));
    tally.record("t3", &Err("scan failed".to_string()));
    tally.record("t4", &Ok(12));
    assert_eq!(tally.reset_count, 15);
    assert_eq!(tally.reset_event_ids, vec!["tnt_t1_count_3".to_string(), "tnt_t4_count_12".to_string()]);
}

#[test]
fn test_check_payload_rejects_non_json() {
    assert!(check_payload(&request("ob_1", b"{\"a\":1}")).is_ok());
    let e = check_payload(&request("ob_2", b"{not json")).unwrap_err();
    assert_eq!(e.code, RpcCode::InvalidArgument);
    assert!(e.message.starts_with("Payload JSON inválido para outbox_id=ob_2: "));
}
