use std::collections::{HashMap, HashSet};

use metri_engine::errors::{RpcCode, RpcError};
use metri_engine::interceptors::AuthenticatedSession;
use metri_engine::quota::service::{
    mismatch_warns,
    AccessPolicy, ActiveQuota, ClaimResult, CloseReason, DebitOutcome, QuotaAction, QuotaEvent,
    QuotaServiceImpl, ReconcileTokensRequest, ReconcileTokensResponse, Reservation,
    ReserveTokensRequest, ReserveTokensResponse, SettleKey,
};
use metri_engine::quota::wire::{split_wire_id, wire_id};

// ─── A counter and a reservation store, kept in memory ──────────────────────

#[derive(Default)]
struct Counter {
    usage: HashMap<String, i64>,
    keys: HashSet<String>,
    broken: bool,
}

impl Counter {
    fn at(id: &str, usage: i64) -> Counter {
        let mut c = Counter::default();
        c.usage.insert(id.to_string(), usage);
        c
    }

    fn usage_of(&self, id: &str) -> Option<i64> {
        self.usage.get(id).copied()
    }

    fn try_debit(&mut self, id: &str, amount: i64, max: i64, seed: i64) -> Result<DebitOutcome, String> {
        if self.broken {
            return Err("contador caído".to_string());
        }
        let current = self.usage_of(id).unwrap_or(seed);
        if current + amount > max {
            return Ok(DebitOutcome::Exhausted { current_usage: current, limit: max });
        }
        self.usage.insert(id.to_string(), current + amount);
        Ok(DebitOutcome::Debited { new_usage: current + amount })
    }

    fn settle_once(&mut self, id: &str, delta: i64, key: &SettleKey) -> Result<(), String> {
        if self.broken {
            return Err("contador caído".to_string());
        }
        let key = match key {
            SettleKey::Settlement(k) => format!("settle#{k}"),
            SettleKey::LateCharge(k) => format!("late#{k}"),
        };
        if self.keys.insert(key) {
            *self.usage.entry(id.to_string()).or_insert(0) += delta;
        }
        Ok(())
    }
}

struct Entry {
    reservation: Reservation,
    closed: Option<CloseReason>,
    leased: bool,
}

#[derive(Default)]
struct Store {
    items: HashMap<(String, String), Entry>,
}

impl Store {
    fn open(&mut self, r: Reservation) {
        self.items.insert(
            (r.tenant_id.clone(), r.id.clone()),
            Entry { reservation: r, closed: None, leased: false },
        );
    }

    fn mark_debited(&mut self, tenant: &str, id: &str) {
        if let Some(e) = self.items.get_mut(&(tenant.to_string(), id.to_string())) {
            e.reservation.debited = true;
        }
    }

    fn close(&mut self, tenant: &str, id: &str, reason: CloseReason) {
        if let Some(e) = self.items.get_mut(&(tenant.to_string(), id.to_string())) {
            e.closed = Some(reason);
            e.leased = false;
        }
    }

    fn claim(&mut self, tenant: &str, id: &str) -> ClaimResult {
        match self.items.get_mut(&(tenant.to_string(), id.to_string())) {
            None => ClaimResult::NotFound,
            Some(e) => match e.closed {
                Some(reason) => ClaimResult::Closed(e.reservation.duplicate(), reason),
                None if e.leased => ClaimResult::Leased(e.reservation.duplicate()),
                None => {
                    e.leased = true;
                    ClaimResult::Claimed(e.reservation.duplicate())
                }
            },
        }
    }

    fn open_count(&self) -> usize {
        self.items.values().filter(|e| e.closed.is_none()).count()
    }

    /// What the sweep does once every open reservation has expired: debited
    /// ones give their estimate back, the others are abandoned.
    fn sweep_all(&mut self, counter: &mut Counter) -> (usize, usize) {
        let (mut refunded, mut abandoned) = (0, 0);
        for e in self.items.values_mut() {
            if e.closed.is_some() {
                continue;
            }
            if e.reservation.debited {
                let key = SettleKey::Settlement(e.reservation.id.clone());
                counter.settle_once(&e.reservation.quota_id, -e.reservation.estimated, &key).unwrap();
                e.closed = Some(CloseReason::Expired);
                refunded += 1;
            } else {
                e.closed = Some(CloseReason::Abandoned);
                abandoned += 1;
            }
        }
        (refunded, abandoned)
    }
}

// ─── Running the two calls against them ─────────────────────────────────────

fn quota() -> ActiveQuota {
    ActiveQuota {
        id: "q_01".to_string(),
        counter_id: "q_01".to_string(),
        max_limit: 1000,
        seed_usage: 0,
        period_key: "LIFETIME".to_string(),
    }
}

fn session(tenant: &str, user: &str) -> AuthenticatedSession {
    AuthenticatedSession {
        tenant_id: tenant.to_string(),
        user_id: user.to_string(),
        jti: "jti_test".to_string(),
    }
}

fn strict() -> AccessPolicy {
    AccessPolicy { master_session: false, mismatch_warn: false }
}

fn reserve(
    svc: &QuotaServiceImpl,
    store: &mut Store,
    counter: &mut Counter,
    who: &AuthenticatedSession,
    tenant: &str,
    estimated: i64,
    found: Option<ActiveQuota>,
    ticket: &str,
) -> Result<ReserveTokensResponse, RpcError> {
    let request = ReserveTokensRequest {
        tenant_id: tenant.to_string(),
        model_urn: "llm:aws:nova-pro".to_string(),
        estimated_tokens: estimated,
    };
    let (mut flow, mut action) = svc.reserve_tokens(who, strict(), request);
    let mut found = Some(found);
    loop {
        let event = match action {
            QuotaAction::ReplyReserve(reply) => return reply,
            QuotaAction::ResolveQuota { .. } => QuotaEvent::Resolved {
                outcome: Ok(found.take().unwrap()),
                ticket: ticket.to_string(),
                now: 1_700_000_000,
            },
            QuotaAction::Open(r) => {
                store.open(r);
                QuotaEvent::Opened(Ok(()))
            }
            QuotaAction::TryDebit { counter_id, amount, max_limit, seed_usage, .. } => {
                QuotaEvent::Debit(counter.try_debit(&counter_id, amount, max_limit, seed_usage))
            }
            QuotaAction::MarkDebited { tenant_id, id } => {
                store.mark_debited(&tenant_id, &id);
                QuotaEvent::Marked(Ok(()))
            }
            QuotaAction::Settle { counter_id, delta, key, .. } => {
                QuotaEvent::Settled(counter.settle_once(&counter_id, delta, &key))
            }
            QuotaAction::Close { tenant_id, id, reason } => {
                store.close(&tenant_id, &id, reason);
                QuotaEvent::Closed(Ok(()))
            }
            _ => panic!("a reserve does not claim"),
        };
        assert!(svc.reserve_accepts(&flow, &event));
        let (f, a) = svc.reserve_step(flow, event);
        flow = f;
        action = a;
    }
}

fn reconcile(
    svc: &QuotaServiceImpl,
    store: &mut Store,
    counter: &mut Counter,
    who: &AuthenticatedSession,
    ticket: &str,
    input: i64,
    output: i64,
) -> Result<ReconcileTokensResponse, RpcError> {
    let request = ReconcileTokensRequest {
        reservation_id: ticket.to_string(),
        actual_input_tokens: input,
        actual_output_tokens: output,
    };
    let (mut flow, mut action) = svc.reconcile_tokens(
        AuthenticatedSession {
            tenant_id: who.tenant_id.clone(),
            user_id: who.user_id.clone(),
            jti: who.jti.clone(),
        },
        strict(),
        request,
    );
    loop {
        let event = match action {
            QuotaAction::ReplyReconcile(reply) => return reply,
            QuotaAction::Claim { tenant_id, id, lease_secs } => {
                assert_eq!(lease_secs, 30);
                QuotaEvent::Claimed(Ok(store.claim(&tenant_id, &id)))
            }
            QuotaAction::Settle { counter_id, delta, key, .. } => {
                QuotaEvent::Settled(counter.settle_once(&counter_id, delta, &key))
            }
            QuotaAction::Close { tenant_id, id, reason } => {
                store.close(&tenant_id, &id, reason);
                QuotaEvent::Closed(Ok(()))
            }
            _ => panic!("a reconcile only claims, settles and closes"),
        };
        assert!(svc.reconcile_accepts(&flow, &event));
        let (f, a) = svc.reconcile_step(flow, event);
        flow = f;
        action = a;
    }
}

// ─── The scenarios ──────────────────────────────────────────────────────────

#[test]
fn reservar_en_una_replica_y_conciliar_en_otra_cuadra_la_cuenta() {
    let mut store = Store::default();
    let mut counter = Counter::default();
    let replica_a = QuotaServiceImpl::with_parts(90);
    let replica_b = QuotaServiceImpl::with_parts(90);
    let who = session("tnt_01", "usr_01");

    let reply = reserve(&replica_a, &mut store, &mut counter, &who, "tnt_01", 400, Some(quota()), "01JTICKET").unwrap();
    assert!(reply.status.success);
    assert_eq!(reply.reservation_id, "tnt_01:01JTICKET");
    assert_eq!(reply.allowed_tokens, 400);
    assert_eq!(counter.usage_of("q_01"), Some(400), "la estimación queda apuntada");

    let reply = reconcile(&replica_b, &mut store, &mut counter, &who, &reply.reservation_id, 100, 50).unwrap();
    assert!(reply.status.success);
    assert_eq!(reply.tokens_consumed, 150);
    assert_eq!(reply.tokens_returned, 250);
    assert_eq!(counter.usage_of("q_01"), Some(150), "solo lo consumido de verdad");
}

#[test]
fn tras_conciliar_el_barrido_no_devuelve_nada() {
    let mut store = Store::default();
    let mut counter = Counter::default();
    let svc = QuotaServiceImpl::with_parts(90);
    let who = session("tnt_01", "usr_01");
    let r = reserve(&svc, &mut store, &mut counter, &who, "tnt_01", 400, Some(quota()), "T1").unwrap();
    reconcile(&svc, &mut store, &mut counter, &who, &r.reservation_id, 150, 0).unwrap();
    assert_eq!(store.sweep_all(&mut counter), (0, 0));
    assert_eq!(counter.usage_of("q_01"), Some(150));
}

#[test]
fn conciliar_dos_veces_no_cambia_la_cuenta() {
    let mut store = Store::default();
    let mut counter = Counter::default();
    let svc = QuotaServiceImpl::with_parts(90);
    let who = session("tnt_01", "usr_01");
    let r = reserve(&svc, &mut store, &mut counter, &who, "tnt_01", 400, Some(quota()), "T1").unwrap();
    let first = reconcile(&svc, &mut store, &mut counter, &who, &r.reservation_id, 150, 0).unwrap();
    let second = reconcile(&svc, &mut store, &mut counter, &who, &r.reservation_id, 150, 0)
        .expect("un reintento no es un error");
    assert!(second.status.success);
    assert_eq!(second.tokens_returned, first.tokens_returned);
    assert_eq!(counter.usage_of("q_01"), Some(150), "el contador no se movió");
}

#[test]
fn una_conciliacion_tardia_apunta_lo_consumido_tras_el_reintegro() {
    let mut store = Store::default();
    let mut counter = Counter::default();
    let svc = QuotaServiceImpl::with_parts(90);
    let who = session("tnt_01", "usr_01");
    let r = reserve(&svc, &mut store, &mut counter, &who, "tnt_01", 400, Some(quota()), "T1").unwrap();
    assert_eq!(counter.usage_of("q_01"), Some(400));
    assert_eq!(store.sweep_all(&mut counter), (1, 0));
    assert_eq!(counter.usage_of("q_01"), Some(0), "se devolvió entera");

    let reply = reconcile(&svc, &mut store, &mut counter, &who, &r.reservation_id, 100, 50).unwrap();
    assert!(reply.status.success);
    assert_eq!(reply.tokens_consumed, 150);
    assert_eq!(reply.tokens_returned, 400);
    assert_eq!(counter.usage_of("q_01"), Some(150), "se apunta lo gastado, ni más ni menos");
}

#[test]
fn una_reserva_cuyo_debito_fallo_se_cierra_sin_devolver() {
    let mut store = Store::default();
    let mut counter = Counter::at("q_01", 500);
    let svc = QuotaServiceImpl::with_parts(90);
    let who = session("tnt_01", "usr_01");
    counter.broken = true;
    let failed = reserve(&svc, &mut store, &mut counter, &who, "tnt_01", 400, Some(quota()), "T1");
    let err = failed.err().expect("la reserva falla y el cliente lo sabe");
    assert_eq!(err.code, RpcCode::Internal);
    assert_eq!(err.message, "Fallo escribiendo débito: contador caído");
    counter.broken = false;
    assert_eq!(store.sweep_all(&mut counter), (0, 1));
    assert_eq!(counter.usage_of("q_01"), Some(500), "intacto");
}

#[test]
fn la_cuota_agotada_no_deja_reserva_pendiente() {
    let mut store = Store::default();
    let mut counter = Counter::at("q_01", 1000);
    let svc = QuotaServiceImpl::with_parts(90);
    let who = session("tnt_01", "usr_01");
    let reply = reserve(&svc, &mut store, &mut counter, &who, "tnt_01", 400, Some(quota()), "T1").unwrap();
    assert!(!reply.status.success);
    assert_eq!(reply.status.error_code, "QUOTA_EXHAUSTED");
    assert_eq!(reply.status.error_message, "Token quota has been fully exhausted");
    let context = reply.status.error_context.unwrap();
    assert_eq!((context.limit, context.current_usage), (1000, 1000));
    assert_eq!(context.resource_domain, "llm:aws:nova-pro");
    assert!(reply.reservation_id.is_empty());
    assert_eq!(store.open_count(), 0, "el ticket rechazado no queda abierto");
    assert_eq!(counter.usage_of("q_01"), Some(1000));
}

#[test]
fn no_se_concilia_una_reserva_que_nunca_debito() {
    let mut store = Store::default();
    let mut counter = Counter::at("q_01", 500);
    let svc = QuotaServiceImpl::with_parts(90);
    let who = session("tnt_01", "usr_01");
    counter.broken = true;
    let _ = reserve(&svc, &mut store, &mut counter, &who, "tnt_01", 400, Some(quota()), "T1");
    counter.broken = false;
    store.sweep_all(&mut counter);
    let err = reconcile(&svc, &mut store, &mut counter, &who, "tnt_01:T1", 100, 0).unwrap_err();
    assert_eq!(err.code, RpcCode::FailedPrecondition);
    assert_eq!(err.message, "La reserva T1 no llegó a aplicarse (abandoned)");
    assert_eq!(counter.usage_of("q_01"), Some(500));
}

#[test]
fn no_se_reserva_a_nombre_de_otro_tenant() {
    let mut store = Store::default();
    let mut counter = Counter::default();
    let svc = QuotaServiceImpl::with_parts(90);
    let who = session("tnt_atacante", "usr_01");
    let err = reserve(&svc, &mut store, &mut counter, &who, "tnt_victima", 400, Some(quota()), "T1").unwrap_err();
    assert_eq!(err.code, RpcCode::PermissionDenied);
    assert_eq!(counter.usage_of("q_01"), None, "no se tocó nada");
}

#[test]
fn no_se_concilia_la_reserva_de_otro_tenant() {
    let mut store = Store::default();
    let mut counter = Counter::default();
    let svc = QuotaServiceImpl::with_parts(90);
    let owner = session("tnt_01", "usr_01");
    let r = reserve(&svc, &mut store, &mut counter, &owner, "tnt_01", 400, Some(quota()), "T1").unwrap();
    let attacker = session("tnt_atacante", "usr_01");
    let err = reconcile(&svc, &mut store, &mut counter, &attacker, &r.reservation_id, 10, 10).unwrap_err();
    assert_eq!(err.code, RpcCode::PermissionDenied);
    assert_eq!(counter.usage_of("q_01"), Some(400), "la reserva ajena sigue intacta");
}

#[test]
fn una_cuenta_de_sistema_si_puede_reservar_por_otro() {
    let mut store = Store::default();
    let mut counter = Counter::default();
    let svc = QuotaServiceImpl::with_parts(90);
    let bff = session("tnt_otro", "usr_system_bff");
    let reply = reserve(&svc, &mut store, &mut counter, &bff, "tnt_cliente", 400, Some(quota()), "T1").unwrap();
    assert!(reply.status.success);
}

#[test]
fn una_estimacion_no_positiva_se_rechaza() {
    let mut store = Store::default();
    let mut counter = Counter::default();
    let svc = QuotaServiceImpl::with_parts(90);
    let who = session("tnt_01", "usr_01");
    for estimado in [0, -500] {
        let err = reserve(&svc, &mut store, &mut counter, &who, "tnt_01", estimado, Some(quota()), "T1").unwrap_err();
        assert_eq!(err.code, RpcCode::InvalidArgument, "estimado = {estimado}");
        assert_eq!(err.message, "estimated_tokens debe ser mayor que cero");
    }
    assert_eq!(counter.usage_of("q_01"), None);
}

#[test]
fn un_consumo_negativo_se_rechaza() {
    let mut store = Store::default();
    let mut counter = Counter::default();
    let svc = QuotaServiceImpl::with_parts(90);
    let who = session("tnt_01", "usr_01");
    let r = reserve(&svc, &mut store, &mut counter, &who, "tnt_01", 400, Some(quota()), "T1").unwrap();
    let err = reconcile(&svc, &mut store, &mut counter, &who, &r.reservation_id, -1000, 0).unwrap_err();
    assert_eq!(err.code, RpcCode::InvalidArgument);
    assert_eq!(counter.usage_of("q_01"), Some(400));
}

#[test]
fn un_ticket_del_formato_anterior_solo_apunta_lo_consumido() {
    let mut store = Store::default();
    let mut counter = Counter::at("q_01", 400);
    let svc = QuotaServiceImpl::with_parts(90);
    let who = session("tnt_01", "usr_01");
    let reply = reconcile(&svc, &mut store, &mut counter, &who, "q_01:400:tnt_01:uuid-xyz", 100, 50).unwrap();
    assert!(reply.status.success);
    assert_eq!(reply.tokens_consumed, 150);
    assert_eq!(reply.tokens_returned, 0);
    assert_eq!(counter.usage_of("q_01"), Some(550), "carga el consumo real");
}

#[test]
fn un_ticket_ilegible_se_rechaza() {
    let mut store = Store::default();
    let mut counter = Counter::default();
    let svc = QuotaServiceImpl::with_parts(90);
    let who = session("tnt_01", "usr_01");
    let err = reconcile(&svc, &mut store, &mut counter, &who, "no-es-un-ticket", 10, 10).unwrap_err();
    assert_eq!(err.code, RpcCode::InvalidArgument);
    assert_eq!(err.message, "Formato de reservation_id inválido");
}

#[test]
fn un_ticket_inventado_no_encuentra_reserva() {
    let mut store = Store::default();
    let mut counter = Counter::default();
    let svc = QuotaServiceImpl::with_parts(90);
    let who = session("tnt_01", "usr_01");
    let err = reconcile(&svc, &mut store, &mut counter, &who, "tnt_01:01JINVENTADO", 10, 10).unwrap_err();
    assert_eq!(err.code, RpcCode::NotFound);
    assert_eq!(err.message, "No existe la reserva tnt_01:01JINVENTADO");
    assert_eq!(counter.usage_of("q_01"), None);
}

#[test]
fn quota_not_configured_is_answered_not_failed() {
    let mut store = Store::default();
    let mut counter = Counter::default();
    let svc = QuotaServiceImpl::with_parts(90);
    let who = session("tnt_01", "usr_01");
    let reply = reserve(&svc, &mut store, &mut counter, &who, "tnt_01", 10, None, "T1").unwrap();
    assert!(!reply.status.success);
    assert_eq!(reply.status.error_code, "QUOTA_NOT_CONFIGURED");
    assert_eq!(
        reply.status.error_message,
        "No quota configured for tenant=tnt_01 model=llm:aws:nova-pro"
    );
    assert_eq!(store.open_count(), 0);
}

#[test]
fn a_ticket_under_reconciliation_asks_for_a_retry() {
    let mut store = Store::default();
    let mut counter = Counter::default();
    let svc = QuotaServiceImpl::with_parts(90);
    let who = session("tnt_01", "usr_01");
    let r = reserve(&svc, &mut store, &mut counter, &who, "tnt_01", 400, Some(quota()), "T1").unwrap();
    let (tenant, id) = split_wire_id(&r.reservation_id).unwrap();
    assert!(matches!(store.claim(&tenant, &id), ClaimResult::Claimed(_)));
    let err = reconcile(&svc, &mut store, &mut counter, &who, &r.reservation_id, 1, 1).unwrap_err();
    assert_eq!(err.code, RpcCode::Aborted);
}

#[test]
fn reservation_expires_after_the_service_ttl() {
    let mut store = Store::default();
    let mut counter = Counter::default();
    let svc = QuotaServiceImpl::with_parts(90);
    let who = session("tnt_01", "usr_01");
    reserve(&svc, &mut store, &mut counter, &who, "tnt_01", 5, Some(quota()), "T1").unwrap();
    let e = store.items.values().next().unwrap();
    assert_eq!(e.reservation.expires_at, 1_700_000_000 + 90);
    assert!(e.reservation.debited);
    assert_eq!(e.reservation.estimated, 5);
}

#[test]
fn wire_ids_round_trip_and_reject_other_shapes() {
    let w = wire_id("tnt_01", "01JX");
    assert_eq!(w, "tnt_01:01JX");
    assert_eq!(split_wire_id(&w), Some(("tnt_01".to_string(), "01JX".to_string())));
    assert_eq!(split_wire_id("a:b:c"), None);
    assert_eq!(split_wire_id(":b"), None);
    assert_eq!(split_wire_id("a:"), None);
    assert_eq!(split_wire_id("plain"), None);
}

#[test]
fn close_reasons_have_names() {
    assert_eq!(CloseReason::Expired.as_str(), "expired");
    assert_eq!(CloseReason::Settled.as_str(), "settled");
    assert_eq!(CloseReason::Rejected.as_str(), "rejected");
    assert_eq!(CloseReason::Abandoned.as_str(), "abandoned");
}

#[test]
fn settings_of_the_quota_service() {
    assert_eq!(QuotaServiceImpl::new(Some("120")).reservation_ttl, 120);
    assert_eq!(QuotaServiceImpl::new(Some("0")).reservation_ttl, 90);
    assert_eq!(QuotaServiceImpl::new(Some("-5")).reservation_ttl, 90);
    assert_eq!(QuotaServiceImpl::new(Some("soon")).reservation_ttl, 90);
    assert_eq!(QuotaServiceImpl::new(None).reservation_ttl, 90);
    assert!(mismatch_warns(Some("warn")));
    assert!(!mismatch_warns(Some("WARN")));
    assert!(!mismatch_warns(None));
}

#[test]
fn sin_sesion_no_se_sirve() {
    match QuotaServiceImpl::session(None) {
        Err(err) => {
            assert_eq!(err.code, RpcCode::Unauthenticated);
            assert_eq!(err.message, "Petición no autenticada [Fail-Closed]");
        }
        Ok(_) => panic!("a request without a session is not served"),
    }
    let s = AuthenticatedSession {
        tenant_id: "tnt_01".to_string(),
        user_id: "usr_01".to_string(),
        jti: "j1".to_string(),
    };
    let found = QuotaServiceImpl::session(Some(&s)).ok().unwrap();
    assert_eq!((found.tenant_id.as_str(), found.user_id.as_str(), found.jti.as_str()), ("tnt_01", "usr_01", "j1"));
}
