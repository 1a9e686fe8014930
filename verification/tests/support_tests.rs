use metri_engine::agent_config::{is_core_module, prompt_candidates, request_defaults, AgentConfigServiceImpl};
use metri_engine::audit::AuditInterceptorImpl;
use metri_engine::json::decimal_text;
use metri_engine::numbers::parse_i64;
use metri_engine::publishers::{ContractEventPublisher, DetachedEventBridgePublisher, NoopEventPublisher};
use metri_engine::query_cache::{entry_is_current, generation_key, plan_put};

#[test]
fn prompt_files_are_tried_in_order() {
    assert_eq!(prompt_candidates("en", "compact"), vec!["en_compact.txt", "en.txt", "es_compact.txt"]);
    assert_eq!(prompt_candidates("en", "full"), vec!["en.txt", "es.txt"]);
    let (l, p) = request_defaults("", "");
    assert_eq!((l.as_str(), p.as_str()), ("es", "full"));
    let (l, p) = request_defaults("en", "compact");
    assert_eq!((l.as_str(), p.as_str()), ("en", "compact"));
    assert!(is_core_module("navigation") && is_core_module("form_autofill") && is_core_module("deletions"));
    assert!(!is_core_module("billing"));
    assert_eq!(AgentConfigServiceImpl::new(None).prompts_dir, "config/prompts");
    assert_eq!(AgentConfigServiceImpl::new(Some("/p".into())).prompts_dir, "/p");
}

#[test]
fn publishers_name_their_bus_and_source() {
    let p = ContractEventPublisher::new("bus-1".to_string());
    assert_eq!(p.bus_name, "bus-1");
    assert_eq!(p.source, "metri.engine");
    assert_eq!(DetachedEventBridgePublisher::bus_name(None), "metri-events");
    assert_eq!(DetachedEventBridgePublisher::bus_name(Some("x".into())), "x");
    assert!(NoopEventPublisher {}.publish("anything").is_ok());
}

#[test]
fn audit_subject_fills_unknowns() {
    let a = AuditInterceptorImpl::new();
    let s = a.audit_subject(Some("t1"), None, Some("sensor"), false);
    assert_eq!((s.tenant_id.as_str(), s.user_id.as_str(), s.resource_domain.as_str()), ("t1", "UNKNOWN", "sensor"));
    assert_eq!(s.status, "FAILURE");
    assert_eq!(a.audit_subject(None, None, None, true).status, "SUCCESS");
}

#[test]
fn cache_generations_hide_stale_entries() {
    assert_eq!(generation_key("tnt_01"), "GEN#QC#tnt_01");
    assert!(entry_is_current(Some(3), Some(3)));
    assert!(!entry_is_current(Some(3), Some(4)));
    assert!(entry_is_current(None, Some(4)));
    assert!(entry_is_current(Some(3), None));
    let w = plan_put(1_000, 60, Some(2));
    assert_eq!((w.expires_at, w.physical_ttl, w.written_at_ms, w.generation), (1_060, 4_660, 1_000_000, Some(2)));
}

#[test]
fn integers_read_and_written_like_std() {
    for s in ["0", "-0", "+7", "9223372036854775807", "-9223372036854775808", "", "-", "+", "1a", " 1", "9223372036854775808", "00012", "99999999999999999999999"] {
        let chars: Vec<char> = s.chars().collect();
        assert_eq!(parse_i64(&chars), s.parse::<i64>().ok(), "{s:?}");
    }
    for n in [0i64, 7, -7, 1234567890, i64::MAX, i64::MIN] {
        assert_eq!(decimal_text(n).into_iter().collect::<String>(), n.to_string());
    }
}
