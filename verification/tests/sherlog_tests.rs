use metri_engine::errors::{DomainError, ErrorCode};
use metri_engine::iop::sherlog::{
    fault_detail_type, plan_fault, write_after_notify, ErrorDtoFields, FaultAction, FaultSeverity, NoopFaultNotifier,
};

#[test]
fn test_fault_severity_parsing() {
    assert_eq!(FaultSeverity::from_catalog_str("info"), FaultSeverity::Info);
    assert_eq!(FaultSeverity::from_catalog_str("error"), FaultSeverity::Error);
    assert_eq!(FaultSeverity::from_catalog_str("fatal"), FaultSeverity::Fatal);
    assert_eq!(
        FaultSeverity::from_catalog_str("anything_else"),
        FaultSeverity::Warning
    );
}

#[test]
fn test_severity_requires_notification() {
    assert!(!FaultSeverity::Info.requires_notification());
    assert!(FaultSeverity::Warning.requires_notification());
    assert!(FaultSeverity::Error.requires_notification());
    assert!(FaultSeverity::Fatal.requires_notification());
}

#[test]
fn severity_names_ignore_letter_case() {
    assert_eq!(FaultSeverity::from_catalog_str("INFO"), FaultSeverity::Info);
    assert_eq!(FaultSeverity::from_catalog_str("Fatal"), FaultSeverity::Fatal);
    assert_eq!(FaultSeverity::from_catalog_str(""), FaultSeverity::Warning);
}

#[test]
fn fault_events_are_typed_by_severity() {
    assert_eq!(fault_detail_type(FaultSeverity::Warning), "DOMAIN_FAULT_WARNING");
    assert_eq!(fault_detail_type(FaultSeverity::Fatal), "DOMAIN_FAULT_FATAL");
    assert_eq!(fault_detail_type(FaultSeverity::Info), "DOMAIN_FAULT_INFO");
    assert_eq!(fault_detail_type(FaultSeverity::Error), "DOMAIN_FAULT_ERROR");
    let noop = NoopFaultNotifier::new();
    assert!(noop.notify(&"dto", &FaultSeverity::Fatal).is_ok());
}

#[test]
fn test_process_fault_success() {
    let error = DomainError::new(ErrorCode::Janus400, "Bad input data".to_string());
    let dto = ErrorDtoFields {
        trace_id: Some("trace-100".to_string()),
        tenant_id: Some("tnt_01".to_string()),
        user_id: Some("usr_01".to_string()),
        code: Some("JANUS_400".to_string()),
        stage: Some("janus".to_string()),
        component: Some("metri-engine".to_string()),
        retryable: Some(false),
        timestamp: Some(1622000000000),
        context: None,
    };
    // No catalogue entry: the severity defaults to a warning, which is notified and persisted.
    let plan = plan_fault(&error, &dto, None, Some("asset".to_string()), 5);
    match &plan {
        FaultAction::NotifyAndPersist { severity, write } => {
            assert_eq!(*severity, FaultSeverity::Warning);
            assert_eq!(write.tenant_id, "tnt_01");
            assert_eq!(write.user_id, "usr_01");
            assert_eq!(write.entity_type, "domain_fault");
            assert_eq!(write.operation, "BULK_CREATE");
            assert_eq!(write.data.len(), 1);
            let record = &write.data[0];
            assert_eq!(record.severity, "WARNING");
            assert_eq!(record.trace_id, "trace-100");
            assert_eq!(record.error_code, "JANUS_400");
            assert_eq!(record.stage, "janus");
            assert!(!record.retryable);
            assert_eq!(record.entity_type.as_deref(), Some("asset"));
            assert_eq!(record.occurred_at, 1622000000000);
            assert_eq!(record.context, None);
        }
        other => panic!("a warning is notified, got {other:?}"),
    }
    // The write is made even when the notification failed.
    let write = write_after_notify(plan.clone(), Err::<(), String>("bus down".to_string()));
    assert!(matches!(write, Some(w) if w.entity_type == "domain_fault"));
    let info = plan_fault(&error, &dto, Some("INFO"), None, 5);
    assert!(matches!(info, FaultAction::LogOnly));
    assert!(write_after_notify(info, Ok::<(), String>(())).is_none());
}
