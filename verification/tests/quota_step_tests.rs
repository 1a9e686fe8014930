use metri_engine::errors::{DomainError, ErrorCode};
use metri_engine::iop::quota_step::{GuardAction, GuardEvent, GuardFlow, QuotaCheck, QuotaGuardStep, QuotaReservation};
use metri_engine::quota::service::{ActiveQuota, DebitOutcome};

fn check(user: &str, operation: &str) -> QuotaCheck {
    QuotaCheck {
        tenant_id: "tnt_01".to_string(),
        user_id: user.to_string(),
        entity_type: "sensor".to_string(),
        operation: operation.to_string(),
        is_super_master: false,
        quota_exempt: false,
    }
}

fn quota(counter: &str) -> ActiveQuota {
    ActiveQuota {
        id: "quota_01".to_string(),
        counter_id: counter.to_string(),
        max_limit: 10,
        seed_usage: 3,
        period_key: "2025-01".to_string(),
    }
}

/// Runs a check against a counter at `usage` (or a lookup that finds no quota).
fn run(step: &QuotaGuardStep, c: &QuotaCheck, found: Option<ActiveQuota>, usage: &mut Option<i64>) -> GuardAction {
    let (mut flow, mut action) = step.execute(c);
    let mut found = Some(found);
    loop {
        let event = match action {
            GuardAction::ResolveQuota { .. } => GuardEvent::Resolved(Ok(found.take().unwrap())),
            GuardAction::TryDebit { amount, max_limit, seed_usage, .. } => {
                let current = usage.unwrap_or(seed_usage);
                if current + amount > max_limit {
                    GuardEvent::Debit(Ok(DebitOutcome::Exhausted { current_usage: current, limit: max_limit }))
                } else {
                    *usage = Some(current + amount);
                    GuardEvent::Debit(Ok(DebitOutcome::Debited { new_usage: current + amount }))
                }
            }
            verdict => return verdict,
        };
        assert!(step.accepts(&flow, &event));
        let (f, a) = step.step(flow, event);
        flow = f;
        action = a;
    }
}

#[test]
fn uncounted_operations_pass_without_touching_quotas() {
    let step = QuotaGuardStep::new();
    for op in ["UPDATE", "delete", "Upsert", "BULK_CREATE"] {
        let (flow, action) = step.execute(&check("usr_01", op));
        assert!(matches!(flow, GuardFlow::Done));
        assert!(matches!(action, GuardAction::Pass), "{op}");
    }
}

#[test]
fn master_and_system_accounts_and_exempt_entities_bypass() {
    let step = QuotaGuardStep::new();
    let mut c = check("usr_system_bff", "CREATE");
    assert!(matches!(step.execute(&c).1, GuardAction::Pass));
    c.user_id = "usr_master".to_string();
    assert!(matches!(step.execute(&c).1, GuardAction::Pass));
    c.user_id = "usr_01".to_string();
    c.is_super_master = true;
    assert!(matches!(step.execute(&c).1, GuardAction::Pass));
    c.is_super_master = false;
    c.quota_exempt = true;
    assert!(matches!(step.execute(&c).1, GuardAction::Pass));
}

#[test]
fn creates_count_writes_and_reads_count_reads() {
    let step = QuotaGuardStep::new();
    match step.execute(&check("usr_01", "create")).1 {
        GuardAction::ResolveQuota { tenant_id, resource_domain, limit_type } => {
            assert_eq!(tenant_id, "tnt_01");
            assert_eq!(resource_domain, "sensor");
            assert_eq!(limit_type, "WRITE_COUNT");
        }
        _ => panic!("a create looks up its quota"),
    }
    match step.execute(&check("usr_01", "Get")).1 {
        GuardAction::ResolveQuota { limit_type, .. } => assert_eq!(limit_type, "READ_COUNT"),
        _ => panic!("a read looks up its quota"),
    }
}

#[test]
fn missing_quota_is_refused_with_quota_001() {
    let step = QuotaGuardStep::new();
    let mut usage = None;
    match run(&step, &check("usr_01", "CREATE"), None, &mut usage) {
        GuardAction::Fail(e) => {
            assert_eq!(e.code, ErrorCode::Quota001);
            assert_eq!(e.stage, "quota");
            assert_eq!(
                e.detail,
                "No quota configured for tenant=tnt_01 resource_domain=sensor limit_type=WRITE_COUNT"
            );
        }
        _ => panic!("expected a refusal"),
    }
}

#[test]
fn exhausted_quota_carries_the_counter_figures() {
    let step = QuotaGuardStep::new();
    let mut usage = Some(10);
    match run(&step, &check("usr_01", "CREATE"), Some(quota("quota_01")), &mut usage) {
        GuardAction::Fail(e) => {
            assert_eq!(e.code, ErrorCode::Quota001);
            assert_eq!(e.detail, "Quota exhausted — upgrade plan or wait for reset");
            let c = e.context.unwrap();
            assert_eq!(c.limit, 10);
            assert_eq!(c.current_usage, 10);
            assert_eq!(c.resource_domain, "sensor");
            assert_eq!(c.period_key.as_deref(), Some("2025-01"));
        }
        _ => panic!("expected a refusal"),
    }
    assert_eq!(usage, Some(10));
}

#[test]
fn successful_debit_leaves_a_pending_reservation() {
    let step = QuotaGuardStep::new();
    let mut usage = None;
    match run(&step, &check("usr_01", "CREATE"), Some(quota("quota_01")), &mut usage) {
        GuardAction::Reserve(r) => {
            assert_eq!(r.id, "quota_01");
            assert_eq!(r.quota_id, "quota_01");
            assert_eq!(r.debit, 1);
            assert_eq!(r.status, "pending");
            assert_eq!(r.new_usage, 4);
            assert_eq!(r.period_key, "2025-01");
            assert_eq!(r.domain, "sensor");
        }
        _ => panic!("expected a reservation"),
    }
    assert_eq!(usage, Some(4));
}

#[test]
fn the_counter_debited_is_the_derived_one() {
    let step = QuotaGuardStep::new();
    let mut usage = None;
    match run(&step, &check("usr_01", "GET"), Some(quota("quota_01#2025-02")), &mut usage) {
        GuardAction::Reserve(r) => {
            assert_eq!(r.id, "quota_01#2025-02");
            assert_eq!(r.quota_id, "quota_01");
        }
        _ => panic!("expected a reservation"),
    }
}

#[test]
fn lookup_failures_pass_through() {
    let step = QuotaGuardStep::new();
    let (flow, _) = step.execute(&check("usr_01", "CREATE"));
    let err = DomainError::new(ErrorCode::Infra001, "dynamo caído".to_string());
    match step.step(flow, GuardEvent::Resolved(Err(err))).1 {
        GuardAction::Fail(e) => {
            assert_eq!(e.code, ErrorCode::Infra001);
            assert_eq!(e.detail, "dynamo caído");
        }
        _ => panic!("the lookup error is the verdict"),
    }
}

#[test]
fn compensar_devuelve_la_unidad_debitada() {
    let step = QuotaGuardStep::new();
    let reservation = Some(QuotaReservation {
        id: "quota_01".to_string(),
        quota_id: "quota_01".to_string(),
        debit: 1,
        domain: "sensor".to_string(),
        period_key: "LIFETIME".to_string(),
        new_usage: 4,
        status: "pending".to_string(),
    });
    let release = step.compensate("tnt_01", &reservation).unwrap();
    assert_eq!(release.tenant_id, "tnt_01");
    assert_eq!(release.counter_id, "quota_01");
    assert_eq!(release.amount, 1);
}

#[test]
fn compensar_sin_reserva_no_hace_nada() {
    let step = QuotaGuardStep::new();
    assert!(step.compensate("tnt_01", &None).is_none());
}

/// The counter of the original scenarios: created on the first debit from
/// the row's usage, refusing once full; a broken one answers an error.
struct Counter {
    usage: Option<i64>,
    broken: bool,
}

fn llm_check() -> QuotaCheck {
    QuotaCheck {
        tenant_id: "tnt_01".to_string(),
        user_id: "usr_01".to_string(),
        entity_type: "llm:aws:nova-pro".to_string(),
        operation: "CREATE".to_string(),
        is_super_master: false,
        quota_exempt: false,
    }
}

fn row(id: &str, max_limit: i64, current_usage: i64, period_key: &str) -> ActiveQuota {
    ActiveQuota {
        id: id.to_string(),
        counter_id: id.to_string(),
        max_limit,
        seed_usage: current_usage,
        period_key: period_key.to_string(),
    }
}

fn guard(c: &QuotaCheck, found: Option<ActiveQuota>, counter: &mut Counter) -> GuardAction {
    let step = QuotaGuardStep::new();
    let (mut flow, mut action) = step.execute(c);
    let mut found = Some(found);
    loop {
        let event = match action {
            GuardAction::ResolveQuota { .. } => GuardEvent::Resolved(Ok(found.take().unwrap())),
            GuardAction::TryDebit { amount, max_limit, seed_usage, .. } => {
                if counter.broken {
                    GuardEvent::Debit(Err(DomainError::new(ErrorCode::Infra001, "ledger no disponible".to_string())))
                } else {
                    let actual = counter.usage.unwrap_or(seed_usage);
                    if actual >= max_limit {
                        GuardEvent::Debit(Ok(DebitOutcome::Exhausted { current_usage: actual, limit: max_limit }))
                    } else {
                        counter.usage = Some(actual + amount);
                        GuardEvent::Debit(Ok(DebitOutcome::Debited { new_usage: actual + amount }))
                    }
                }
            }
            verdict => return verdict,
        };
        let (f, a) = step.step(flow, event);
        flow = f;
        action = a;
    }
}

#[test]
fn test_quota_guard_bypass_for_non_monitored_operations() {
    let mut counter = Counter { usage: None, broken: false };
    let mut c = llm_check();
    c.entity_type = "domain_quota".to_string();
    c.operation = "UPDATE".to_string();
    assert!(matches!(guard(&c, None, &mut counter), GuardAction::Pass));
    assert_eq!(counter.usage, None, "ni se tocó el contador");
}

#[test]
fn test_quota_guard_missing_quota_returns_error() {
    let mut counter = Counter { usage: None, broken: false };
    match guard(&llm_check(), None, &mut counter) {
        GuardAction::Fail(e) => assert_eq!(e.code, ErrorCode::Quota001),
        other => panic!("expected a refusal, got {other:?}"),
    }
}

#[test]
fn test_quota_guard_exhausted_quota_returns_error() {
    let mut counter = Counter { usage: None, broken: false };
    match guard(&llm_check(), Some(row("quota_01", 10, 10, "LIFETIME")), &mut counter) {
        GuardAction::Fail(e) => assert_eq!(e.code, ErrorCode::Quota001),
        other => panic!("expected a refusal, got {other:?}"),
    }
}

#[test]
fn test_quota_guard_successful_quota_debit() {
    let mut counter = Counter { usage: None, broken: false };
    match guard(&llm_check(), Some(row("quota_01", 10, 3, "LIFETIME")), &mut counter) {
        GuardAction::Reserve(r) => {
            assert_eq!(r.id, "quota_01");
            assert_eq!(r.debit, 1);
            assert_eq!(r.status, "pending");
            assert_eq!(r.new_usage, 4);
        }
        other => panic!("should have reservation, got {other:?}"),
    }
    assert_eq!(counter.usage, Some(4));
}

#[test]
fn el_contador_manda_sobre_la_lectura_previa() {
    let mut counter = Counter { usage: Some(10), broken: false };
    match guard(&llm_check(), Some(row("quota_01", 10, 3, "LIFETIME")), &mut counter) {
        GuardAction::Fail(e) => assert_eq!(e.code, ErrorCode::Quota001),
        other => panic!("la lectura decía que había sitio; el contador manda, got {other:?}"),
    }
    assert_eq!(counter.usage, Some(10), "el contador no se movió");
}

#[test]
fn el_rechazo_lleva_las_cifras_del_contador() {
    let mut counter = Counter { usage: Some(10), broken: false };
    match guard(&llm_check(), Some(row("quota_01", 10, 3, "2026-01-01_2027-01-01")), &mut counter) {
        GuardAction::Fail(e) => {
            let contexto = e.context.expect("el rechazo por cuota debe llevar contexto");
            assert_eq!(contexto.current_usage, 10, "no la foto vieja de 3");
            assert_eq!(contexto.limit, 10);
            assert_eq!(contexto.resource_domain, "llm:aws:nova-pro");
        }
        other => panic!("expected a refusal, got {other:?}"),
    }
}

#[test]
fn un_contador_caido_no_deja_pasar() {
    let mut counter = Counter { usage: None, broken: true };
    assert!(matches!(
        guard(&llm_check(), Some(row("quota_01", 10, 3, "LIFETIME")), &mut counter),
        GuardAction::Fail(_)
    ));
}
