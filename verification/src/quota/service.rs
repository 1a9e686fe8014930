//! The token-quota service of the AI proxy.
//!
//! A reserve opens a ticket in the shared reservation store *before* it debits
//! the estimate from the quota counter, marks the ticket once the debit is in,
//! and hands the client `<tenant>:<id>`. A reconcile claims the ticket and
//! settles the difference between what was debited and what was consumed;
//! when the ticket was already closed, what is owed depends on why it closed.
//!
//! The store, the counter and the quota lookup are services outside this
//! library. Each call is therefore a state machine: a step takes the state and
//! the outcome of the last outside call, and returns the next state and the
//! next outside call to make, or the reply.
use vstd::prelude::*;
use crate::errors::{rpc_error_is, QuotaContext, RpcCode, RpcError};
use crate::interceptors::AuthenticatedSession;
use crate::quota::wire::{colon_fields, colon_split, split_wire_id, split_wire_spec, wire_id, wire_id_spec};
use crate::numbers::{parse_i64, parse_int};
use crate::text::{chars_of, joined, opt_text, same_text, string_from_chars};

verus! {

/// What the service knows about a session beyond its fields: whether its
/// tenant is the master tenant, and whether a request on another tenant's
/// quota is only reported instead of refused (the `warn` mode of the tenant
/// mismatch switch).
#[derive(Debug, Clone, Copy, PartialEq, Eq, Structural)]
pub struct AccessPolicy {
    pub master_session: bool,
    pub mismatch_warn: bool,
}

/// The service accounts that may work on any tenant's quota.
pub open spec fn is_system_user(user: Seq<char>) -> bool {
    user == "usr_system_bff"@ || user == "usr_master"@
}

/// A session may work on the quota of `target` when it belongs to that
/// tenant, to the master tenant, or to a service account, or when mismatches
/// are only reported.
pub open spec fn may_act_for(session: AuthenticatedSession, access: AccessPolicy, target: Seq<char>) -> bool {
    session.tenant_id@ == target || access.master_session || is_system_user(session.user_id@)
        || access.mismatch_warn
}

/// The message of a refused cross-tenant request.
pub open spec fn denied_message() -> Seq<char> {
    "La sesión no puede operar sobre la cuota de otro tenant"@
}

/// The status block of a reply.
#[derive(Debug)]
pub struct ReplyStatus {
    pub success: bool,
    pub error_code: String,
    pub error_message: String,
    pub error_context: Option<QuotaContext>,
}

/// A successful status: no code, no message, no context.
pub open spec fn status_ok(s: ReplyStatus) -> bool {
    s.success && s.error_code@ == Seq::<char>::empty() && s.error_message@ == Seq::<char>::empty()
        && s.error_context is None
}

/// A reserve request: who, for which model, and how many tokens it expects to use.
#[derive(Debug)]
pub struct ReserveTokensRequest {
    pub tenant_id: String,
    pub model_urn: String,
    pub estimated_tokens: i64,
}

/// The reply to a reserve.
#[derive(Debug)]
pub struct ReserveTokensResponse {
    pub status: ReplyStatus,
    pub reservation_id: String,
    pub allowed_tokens: i64,
}

/// A reserve refused in the reply (not as a failed call): the status carries
/// the code, the message and the context, and no ticket is handed out.
pub open spec fn reserve_rejected(
    r: ReserveTokensResponse,
    code: Seq<char>,
    message: Seq<char>,
    context: Option<QuotaContext>,
) -> bool {
    &&& !r.status.success
    &&& r.status.error_code@ == code
    &&& r.status.error_message@ == message
    &&& r.status.error_context == context
    &&& r.reservation_id@ == Seq::<char>::empty()
    &&& r.allowed_tokens == 0
}

/// A reconcile request: the ticket and the tokens actually consumed.
#[derive(Debug)]
pub struct ReconcileTokensRequest {
    pub reservation_id: String,
    pub actual_input_tokens: i64,
    pub actual_output_tokens: i64,
}

/// The reply to a reconcile.
#[derive(Debug)]
pub struct ReconcileTokensResponse {
    pub status: ReplyStatus,
    pub tokens_consumed: i64,
    pub tokens_returned: i64,
}

/// A successful reconcile reply with these figures.
pub open spec fn reconcile_ok(r: ReconcileTokensResponse, consumed: int, returned: int) -> bool {
    status_ok(r.status) && r.tokens_consumed == consumed && r.tokens_returned == returned
}

/// The quota in force for a tenant and a resource, as the lookup found it.
#[derive(Debug)]
pub struct ActiveQuota {
    /// The configuration row.
    pub id: String,
    /// The counter that is debited.
    pub counter_id: String,
    pub max_limit: i64,
    /// The usage to start from when the counter has no entry yet.
    pub seed_usage: i64,
    pub period_key: String,
}

/// A reservation as the shared store keeps it.
#[derive(Debug)]
pub struct Reservation {
    pub id: String,
    pub tenant_id: String,
    pub quota_id: String,
    pub estimated: i64,
    /// Whether the debit of `estimated` is known to have been applied.
    pub debited: bool,
    pub expires_at: i64,
}

impl Reservation {
    /// An equal copy.
    pub fn duplicate(&self) -> (r: Reservation)
        ensures
            r == *self,
    {
        Reservation {
            id: self.id.clone(),
            tenant_id: self.tenant_id.clone(),
            quota_id: self.quota_id.clone(),
            estimated: self.estimated,
            debited: self.debited,
            expires_at: self.expires_at,
        }
    }
}

/// Why the store closed a reservation.
#[derive(Debug, Clone, Copy, PartialEq, Eq, Structural)]
pub enum CloseReason {
    /// It ran out of time after its debit; the sweep gave the estimate back.
    Expired,
    /// A reconcile settled it.
    Settled,
    /// Its debit was refused or undone.
    Rejected,
    /// It ran out of time before any debit was applied.
    Abandoned,
}

/// The name of a close reason.
pub open spec fn close_reason_text(r: CloseReason) -> Seq<char> {
    match r {
        CloseReason::Expired => "expired"@,
        CloseReason::Settled => "settled"@,
        CloseReason::Rejected => "rejected"@,
        CloseReason::Abandoned => "abandoned"@,
    }
}

impl CloseReason {
    /// The name of the reason.
    pub fn as_str(&self) -> (r: &'static str)
        ensures
            r@ == close_reason_text(*self),
    {
        match self {
            CloseReason::Expired => "expired",
            CloseReason::Settled => "settled",
            CloseReason::Rejected => "rejected",
            CloseReason::Abandoned => "abandoned",
        }
    }
}

/// What claiming a ticket found.
#[derive(Debug)]
pub enum ClaimResult {
    /// Open, and now leased to this reconcile.
    Claimed(Reservation),
    /// Already closed, for this reason.
    Closed(Reservation, CloseReason),
    /// Being closed by someone else right now.
    Leased(Reservation),
    NotFound,
}

/// What a conditional debit of the counter did.
#[derive(Debug, Clone, Copy, PartialEq, Eq, Structural)]
pub enum DebitOutcome {
    /// Refused: the debit would pass the limit. The figures are the counter's.
    Exhausted { current_usage: i64, limit: i64 },
    /// Applied.
    Debited { new_usage: i64 },
}

/// The idempotency key of a settlement: the one of the ticket's own
/// settlement, or the one of a charge that arrives after the ticket closed.
#[derive(Debug)]
pub enum SettleKey {
    Settlement(String),
    LateCharge(String),
}

/// The next outside call to make, or the reply.
#[derive(Debug)]
pub enum QuotaAction {
    /// Look up the quota in force.
    ResolveQuota { tenant_id: String, resource_domain: String, limit_type: &'static str },
    /// Record the reservation in the store, not yet debited.
    Open(Reservation),
    /// Debit `amount` if the counter stays within `max_limit`.
    TryDebit { tenant_id: String, counter_id: String, amount: i64, max_limit: i64, seed_usage: i64 },
    /// Record in the store that the debit of a reservation was applied.
    MarkDebited { tenant_id: String, id: String },
    /// Add `delta` to the counter, once per key.
    Settle { tenant_id: String, counter_id: String, delta: i64, key: SettleKey },
    /// Close a reservation in the store.
    Close { tenant_id: String, id: String, reason: CloseReason },
    /// Lease an open reservation for `lease_secs` seconds, or report its state.
    Claim { tenant_id: String, id: String, lease_secs: i64 },
    /// The reply to a reserve.
    ReplyReserve(Result<ReserveTokensResponse, RpcError>),
    /// The reply to a reconcile.
    ReplyReconcile(Result<ReconcileTokensResponse, RpcError>),
}

/// The outcome of the last outside call. An outside failure carries its text.
#[derive(Debug)]
pub enum QuotaEvent {
    /// The quota lookup answered; `ticket` is a fresh identifier and `now`
    /// the time in seconds, for the reservation that may be opened.
    Resolved { outcome: Result<Option<ActiveQuota>, String>, ticket: String, now: i64 },
    Opened(Result<(), String>),
    Debit(Result<DebitOutcome, String>),
    Marked(Result<(), String>),
    Settled(Result<(), String>),
    Closed(Result<(), String>),
    Claimed(Result<ClaimResult, String>),
}

/// Where a reserve stands.
#[derive(Debug)]
pub enum ReserveFlow {
    /// Waiting for the quota lookup.
    Resolving { request: ReserveTokensRequest },
    /// Waiting for the store to record the reservation.
    Opening { request: ReserveTokensRequest, quota: ActiveQuota, reservation: Reservation },
    /// Waiting for the counter's debit.
    Debiting { request: ReserveTokensRequest, quota: ActiveQuota, reservation: Reservation },
    /// Waiting for the store to record the debit.
    Marking { request: ReserveTokensRequest, reservation: Reservation },
    /// The debit could not be recorded: waiting for it to be given back.
    Refunding { request: ReserveTokensRequest, reservation: Reservation },
    /// Waiting for the store to close a reservation that never counted;
    /// `reply` goes out after.
    Discarding { reply: Result<ReserveTokensResponse, RpcError> },
    Done,
}

/// Where a reconcile stands.
#[derive(Debug)]
pub enum ReconcileFlow {
    /// Waiting for the claim of the ticket.
    Claiming { session: AuthenticatedSession, access: AccessPolicy, wire: String, actual: i64 },
    /// Waiting for the settlement of a claimed reservation.
    Settling { reservation: Reservation, actual: i64 },
    /// Settled: waiting for the store to close the reservation; `reply` goes out after.
    Closing { reply: ReconcileTokensResponse },
    /// Waiting for the charge of what was consumed after the reservation expired.
    ChargingLate { reservation: Reservation, actual: i64 },
    /// Waiting for the charge of a ticket of the earlier format.
    ChargingLegacy { actual: i64 },
    Done,
}

/// Seconds that a reconcile holds the right to close a ticket.
pub const RECONCILE_LEASE_SECS: i64 = 30;

/// Seconds that a reservation lives before the sweep collects it, by default.
pub const DEFAULT_RESERVATION_TTL_SECS: i64 = 90;

/// The decisions of the quota service.
#[derive(Debug)]
pub struct QuotaServiceImpl {
    /// Seconds that a reservation lives before the sweep collects it.
    pub reservation_ttl: i64,
}

/// An `i64` value.
pub open spec fn fits_i64(x: int) -> bool {
    i64::MIN <= x <= i64::MAX
}

/// `action` fails the reserve with `code` and `message`.
pub open spec fn reserve_fails(action: QuotaAction, code: RpcCode, message: Seq<char>) -> bool {
    action matches QuotaAction::ReplyReserve(Err(e)) && rpc_error_is(e, code, message)
}

/// `action` fails the reconcile with `code` and `message`.
pub open spec fn reconcile_fails(action: QuotaAction, code: RpcCode, message: Seq<char>) -> bool {
    action matches QuotaAction::ReplyReconcile(Err(e)) && rpc_error_is(e, code, message)
}

/// `action` answers the reconcile successfully with these figures.
pub open spec fn reconcile_replies(action: QuotaAction, consumed: int, returned: int) -> bool {
    action matches QuotaAction::ReplyReconcile(Ok(reply)) && reconcile_ok(reply, consumed, returned)
}

// ─────────────────────────────────────────────────────────────────────────────
// Reserve
// ─────────────────────────────────────────────────────────────────────────────

/// The first step of a reserve: the session must be allowed on the target
/// tenant, the estimate must be positive, and then the quota is looked up.
pub open spec fn reserve_start(
    session: AuthenticatedSession,
    access: AccessPolicy,
    request: ReserveTokensRequest,
    flow: ReserveFlow,
    action: QuotaAction,
) -> bool {
    if !may_act_for(session, access, request.tenant_id@) {
        flow is Done && reserve_fails(action, RpcCode::PermissionDenied, denied_message())
    } else if request.estimated_tokens <= 0 {
        flow is Done && reserve_fails(
            action,
            RpcCode::InvalidArgument,
            "estimated_tokens debe ser mayor que cero"@,
        )
    } else {
        &&& action matches QuotaAction::ResolveQuota { tenant_id, resource_domain, limit_type }
        &&& tenant_id == request.tenant_id
        &&& resource_domain == request.model_urn
        &&& limit_type@ == "TOKEN_COUNT"@
        &&& flow == ReserveFlow::Resolving { request }
    }
}

/// The events that a reserve in `flow` can take: the outcome of the call it
/// asked for, with a positive estimate, and a clock that leaves room for the
/// reservation's lifetime.
pub open spec fn reserve_awaits(ttl: i64, flow: ReserveFlow, event: QuotaEvent) -> bool {
    match flow {
        ReserveFlow::Resolving { request } => request.estimated_tokens > 0 && (
        event matches QuotaEvent::Resolved { now, .. } && fits_i64(now + ttl)),
        ReserveFlow::Opening { request, .. } => request.estimated_tokens > 0 && event is Opened,
        ReserveFlow::Debiting { request, .. } => request.estimated_tokens > 0 && event is Debit,
        ReserveFlow::Marking { request, .. } => request.estimated_tokens > 0 && event is Marked,
        ReserveFlow::Refunding { request, .. } => request.estimated_tokens > 0 && event is Settled,
        ReserveFlow::Discarding { .. } => event is Closed,
        ReserveFlow::Done => false,
    }
}

/// The reservation that a reserve opens: the fresh ticket, the request's
/// tenant and estimate, the quota found, not yet debited, expiring `ttl`
/// seconds from now.
pub open spec fn opened_reservation(
    r: Reservation,
    request: ReserveTokensRequest,
    quota: ActiveQuota,
    ticket: String,
    now: i64,
    ttl: i64,
) -> bool {
    &&& r.id == ticket
    &&& r.tenant_id == request.tenant_id
    &&& r.quota_id == quota.id
    &&& r.estimated == request.estimated_tokens
    &&& !r.debited
    &&& r.expires_at == now + ttl
}

/// One step of a reserve.
pub open spec fn reserve_next(
    ttl: i64,
    flow: ReserveFlow,
    event: QuotaEvent,
    next: ReserveFlow,
    action: QuotaAction,
) -> bool {
    match flow {
        ReserveFlow::Resolving { request } => match event {
            QuotaEvent::Resolved { outcome, ticket, now } => match outcome {
                Err(detail) => next is Done && reserve_fails(
                    action,
                    RpcCode::Internal,
                    "Error consultando cuota: "@ + detail@,
                ),
                Ok(None) => {
                    &&& next is Done
                    &&& action matches QuotaAction::ReplyReserve(Ok(reply))
                    &&& reserve_rejected(
                        reply,
                        "QUOTA_NOT_CONFIGURED"@,
                        "No quota configured for tenant="@ + request.tenant_id@ + " model="@
                            + request.model_urn@,
                        None,
                    )
                },
                Ok(Some(quota)) => {
                    &&& next matches ReserveFlow::Opening { request: rq, quota: q, reservation }
                    &&& rq == request
                    &&& q == quota
                    &&& opened_reservation(reservation, request, quota, ticket, now, ttl)
                    &&& action == QuotaAction::Open(reservation)
                },
            },
            _ => false,
        },
        ReserveFlow::Opening { request, quota, reservation } => match event {
            QuotaEvent::Opened(Err(detail)) => next is Done && reserve_fails(
                action,
                RpcCode::Internal,
                "Error abriendo la reserva: "@ + detail@,
            ),
            QuotaEvent::Opened(Ok(())) => {
                &&& next == ReserveFlow::Debiting { request, quota, reservation }
                &&& action matches QuotaAction::TryDebit {
                    tenant_id,
                    counter_id,
                    amount,
                    max_limit,
                    seed_usage,
                }
                &&& tenant_id == request.tenant_id
                &&& counter_id == quota.id
                &&& amount == request.estimated_tokens
                &&& max_limit == quota.max_limit
                &&& seed_usage == quota.seed_usage
            },
            _ => false,
        },
        ReserveFlow::Debiting { request, quota, reservation } => match event {
            QuotaEvent::Debit(Err(detail)) => next is Done && reserve_fails(
                action,
                RpcCode::Internal,
                "Fallo escribiendo débito: "@ + detail@,
            ),
            QuotaEvent::Debit(Ok(DebitOutcome::Exhausted { current_usage, limit })) => {
                &&& next matches ReserveFlow::Discarding { reply: Ok(reply) }
                &&& reserve_rejected(
                    reply,
                    "QUOTA_EXHAUSTED"@,
                    "Token quota has been fully exhausted"@,
                    reply.status.error_context,
                )
                &&& reply.status.error_context matches Some(c)
                &&& c.limit == limit
                &&& c.current_usage == current_usage
                &&& c.resource_domain == request.model_urn
                &&& c.period_key is None
                &&& action == QuotaAction::Close {
                    tenant_id: request.tenant_id,
                    id: reservation.id,
                    reason: CloseReason::Rejected,
                }
            },
            QuotaEvent::Debit(Ok(DebitOutcome::Debited { .. })) => {
                &&& next == ReserveFlow::Marking { request, reservation }
                &&& action == QuotaAction::MarkDebited {
                    tenant_id: request.tenant_id,
                    id: reservation.id,
                }
            },
            _ => false,
        },
        ReserveFlow::Marking { request, reservation } => match event {
            QuotaEvent::Marked(Ok(())) => {
                &&& next is Done
                &&& action matches QuotaAction::ReplyReserve(Ok(reply))
                &&& status_ok(reply.status)
                &&& reply.reservation_id@ == wire_id_spec(request.tenant_id@, reservation.id@)
                &&& reply.allowed_tokens == request.estimated_tokens
            },
            QuotaEvent::Marked(Err(_)) => {
                &&& action matches QuotaAction::Settle { tenant_id, counter_id, delta, key }
                &&& tenant_id == request.tenant_id
                &&& counter_id == reservation.quota_id
                &&& delta == -request.estimated_tokens
                &&& key == SettleKey::Settlement(reservation.id)
                &&& next == ReserveFlow::Refunding { request, reservation }
            },
            _ => false,
        },
        ReserveFlow::Refunding { request, reservation } => match event {
            QuotaEvent::Settled(_) => {
                &&& next matches ReserveFlow::Discarding { reply: Err(e) }
                &&& rpc_error_is(e, RpcCode::Internal, "No se pudo registrar la reserva de tokens"@)
                &&& action == QuotaAction::Close {
                    tenant_id: request.tenant_id,
                    id: reservation.id,
                    reason: CloseReason::Rejected,
                }
            },
            _ => false,
        },
        ReserveFlow::Discarding { reply } => match event {
            QuotaEvent::Closed(_) => next is Done && action == QuotaAction::ReplyReserve(reply),
            _ => false,
        },
        ReserveFlow::Done => false,
    }
}

// ─────────────────────────────────────────────────────────────────────────────
// Reconcile
// ─────────────────────────────────────────────────────────────────────────────

/// What a reconcile settles against a claimed reservation: the difference
/// between consumed and estimated when the estimate was debited, all of what
/// was consumed when it was not.
pub open spec fn settle_delta(debited: bool, estimated: int, actual: int) -> int {
    if debited {
        actual - estimated
    } else {
        actual
    }
}

/// The tokens handed back: what was estimated and not consumed, if anything.
pub open spec fn unused_tokens(estimated: int, actual: int) -> int {
    if estimated - actual > 0 {
        estimated - actual
    } else {
        0
    }
}

/// The first step of a reconcile of a ticket of the earlier format, the four
/// fields `<quota>:<estimate>:<tenant>:<nonce>`: its owner gives the estimate
/// back when it expires, so only what was consumed is charged.
pub open spec fn legacy_start(
    session: AuthenticatedSession,
    access: AccessPolicy,
    wire: Seq<char>,
    actual: int,
    flow: ReconcileFlow,
    action: QuotaAction,
) -> bool {
    let fields = colon_fields(wire);
    if fields.len() != 4 {
        flow is Done && reconcile_fails(
            action,
            RpcCode::InvalidArgument,
            "Formato de reservation_id inválido"@,
        )
    } else if !may_act_for(session, access, fields[2]) {
        flow is Done && reconcile_fails(action, RpcCode::PermissionDenied, denied_message())
    } else if actual > 0 {
        &&& action matches QuotaAction::Settle { tenant_id, counter_id, delta, key }
        &&& tenant_id@ == fields[2]
        &&& counter_id@ == fields[0]
        &&& delta == actual
        &&& key matches SettleKey::LateCharge(k)
        &&& k@ == wire
        &&& flow matches ReconcileFlow::ChargingLegacy { actual: a }
        &&& a == actual
    } else {
        flow is Done && reconcile_replies(action, actual, 0)
    }
}

/// The first step of a reconcile: consumption must not be negative; a ticket
/// of the current format is claimed once the session is allowed on the
/// ticket's tenant, and one of the earlier format is charged directly.
pub open spec fn reconcile_start(
    session: AuthenticatedSession,
    access: AccessPolicy,
    request: ReconcileTokensRequest,
    flow: ReconcileFlow,
    action: QuotaAction,
) -> bool {
    let actual = request.actual_input_tokens + request.actual_output_tokens;
    if request.actual_input_tokens < 0 || request.actual_output_tokens < 0 {
        flow is Done && reconcile_fails(
            action,
            RpcCode::InvalidArgument,
            "Los tokens consumidos no pueden ser negativos"@,
        )
    } else {
        match split_wire_spec(request.reservation_id@) {
            None => legacy_start(session, access, request.reservation_id@, actual, flow, action),
            Some((hint, id)) => if !may_act_for(session, access, hint) {
                flow is Done && reconcile_fails(action, RpcCode::PermissionDenied, denied_message())
            } else {
                &&& action matches QuotaAction::Claim { tenant_id, id: claimed, lease_secs }
                &&& tenant_id@ == hint
                &&& claimed@ == id
                &&& lease_secs == RECONCILE_LEASE_SECS
                &&& flow matches ReconcileFlow::Claiming { session: s, access: a, wire, actual: n }
                &&& s == session
                &&& a == access
                &&& wire == request.reservation_id
                &&& n == actual
            },
        }
    }
}

/// A claim outcome whose reservation, if any, has a non-negative estimate.
pub open spec fn claim_sane(outcome: Result<ClaimResult, String>) -> bool {
    match outcome {
        Ok(ClaimResult::Claimed(r)) => r.estimated >= 0,
        Ok(ClaimResult::Closed(r, _)) => r.estimated >= 0,
        _ => true,
    }
}

/// The events that a reconcile in `flow` can take: the outcome of the call it
/// asked for, with non-negative figures.
pub open spec fn reconcile_awaits(flow: ReconcileFlow, event: QuotaEvent) -> bool {
    match flow {
        ReconcileFlow::Claiming { actual, .. } => actual >= 0 && (event matches QuotaEvent::Claimed(
            outcome,
        ) && claim_sane(outcome)),
        ReconcileFlow::Settling { reservation, actual } => actual >= 0 && reservation.estimated >= 0
            && event is Settled,
        ReconcileFlow::Closing { .. } => event is Closed,
        ReconcileFlow::ChargingLate { .. } => event is Settled,
        ReconcileFlow::ChargingLegacy { .. } => event is Settled,
        ReconcileFlow::Done => false,
    }
}

/// A reconcile of a reservation that was already closed: after an expiry the
/// sweep gave the whole estimate back, so what was consumed is charged under
/// its own key; after a settlement nothing changes and the same figures are
/// answered; a reservation that never debited cannot be reconciled.
pub open spec fn late_next(
    r: Reservation,
    reason: CloseReason,
    actual: int,
    next: ReconcileFlow,
    action: QuotaAction,
) -> bool {
    match reason {
        CloseReason::Expired => if actual > 0 {
            &&& action matches QuotaAction::Settle { tenant_id, counter_id, delta, key }
            &&& tenant_id == r.tenant_id
            &&& counter_id == r.quota_id
            &&& delta == actual
            &&& key == SettleKey::LateCharge(r.id)
            &&& next matches ReconcileFlow::ChargingLate { reservation, actual: n }
            &&& reservation == r
            &&& n == actual
        } else {
            next is Done && reconcile_replies(action, actual, r.estimated as int)
        },
        CloseReason::Settled => next is Done && reconcile_replies(
            action,
            actual,
            unused_tokens(r.estimated as int, actual),
        ),
        _ => next is Done && reconcile_fails(
            action,
            RpcCode::FailedPrecondition,
            "La reserva "@ + r.id@ + " no llegó a aplicarse ("@ + close_reason_text(reason) + ")"@,
        ),
    }
}

/// One step of a reconcile.
pub open spec fn reconcile_next(
    flow: ReconcileFlow,
    event: QuotaEvent,
    next: ReconcileFlow,
    action: QuotaAction,
) -> bool {
    match flow {
        ReconcileFlow::Claiming { session, access, wire, actual } => match event {
            QuotaEvent::Claimed(Err(detail)) => next is Done && reconcile_fails(
                action,
                RpcCode::Internal,
                "Error leyendo la reserva: "@ + detail@,
            ),
            QuotaEvent::Claimed(Ok(ClaimResult::Claimed(r))) => if !may_act_for(
                session,
                access,
                r.tenant_id@,
            ) {
                next is Done && reconcile_fails(action, RpcCode::PermissionDenied, denied_message())
            } else {
                &&& action matches QuotaAction::Settle { tenant_id, counter_id, delta, key }
                &&& tenant_id == r.tenant_id
                &&& counter_id == r.quota_id
                &&& delta == settle_delta(r.debited, r.estimated as int, actual as int)
                &&& key == SettleKey::Settlement(r.id)
                &&& next == ReconcileFlow::Settling { reservation: r, actual }
            },
            QuotaEvent::Claimed(Ok(ClaimResult::Closed(r, reason))) => late_next(
                r,
                reason,
                actual as int,
                next,
                action,
            ),
            QuotaEvent::Claimed(Ok(ClaimResult::Leased(_))) => next is Done && reconcile_fails(
                action,
                RpcCode::Aborted,
                "La reserva se está conciliando en este momento; reintenta"@,
            ),
            QuotaEvent::Claimed(Ok(ClaimResult::NotFound)) => next is Done && reconcile_fails(
                action,
                RpcCode::NotFound,
                "No existe la reserva "@ + wire@,
            ),
            _ => false,
        },
        ReconcileFlow::Settling { reservation: r, actual } => match event {
            QuotaEvent::Settled(Err(detail)) => next is Done && reconcile_fails(
                action,
                RpcCode::Internal,
                "Fallo escribiendo conciliación: "@ + detail@,
            ),
            QuotaEvent::Settled(Ok(())) => {
                &&& action == QuotaAction::Close {
                    tenant_id: r.tenant_id,
                    id: r.id,
                    reason: CloseReason::Settled,
                }
                &&& next matches ReconcileFlow::Closing { reply }
                &&& reconcile_ok(
                    reply,
                    actual as int,
                    if r.debited {
                        unused_tokens(r.estimated as int, actual as int)
                    } else {
                        0
                    },
                )
            },
            _ => false,
        },
        ReconcileFlow::Closing { reply } => match event {
            QuotaEvent::Closed(_) => next is Done && action == QuotaAction::ReplyReconcile(Ok(reply)),
            _ => false,
        },
        ReconcileFlow::ChargingLate { reservation: r, actual } => match event {
            QuotaEvent::Settled(Err(detail)) => next is Done && reconcile_fails(
                action,
                RpcCode::Internal,
                "Fallo apuntando el consumo: "@ + detail@,
            ),
            QuotaEvent::Settled(Ok(())) => next is Done && reconcile_replies(
                action,
                actual as int,
                r.estimated as int,
            ),
            _ => false,
        },
        ReconcileFlow::ChargingLegacy { actual } => match event {
            QuotaEvent::Settled(Err(detail)) => next is Done && reconcile_fails(
                action,
                RpcCode::Internal,
                "Fallo escribiendo conciliación: "@ + detail@,
            ),
            QuotaEvent::Settled(Ok(())) => next is Done && reconcile_replies(action, actual as int, 0),
            _ => false,
        },
        ReconcileFlow::Done => false,
    }
}

fn denied() -> (e: RpcError)
    ensures
        rpc_error_is(e, RpcCode::PermissionDenied, denied_message()),
{
    RpcError {
        code: RpcCode::PermissionDenied,
        message: String::from_str("La sesión no puede operar sobre la cuota de otro tenant"),
    }
}

fn failure(code: RpcCode, message: &str) -> (e: RpcError)
    ensures
        rpc_error_is(e, code, message@),
{
    RpcError { code, message: message.to_owned() }
}

fn internal(prefix: &str, detail: &str) -> (e: RpcError)
    ensures
        rpc_error_is(e, RpcCode::Internal, prefix@ + detail@),
{
    RpcError { code: RpcCode::Internal, message: joined(prefix, detail) }
}

/// The lifetime of a reservation given the `QUOTA_RESERVATION_TTL_SECS`
/// setting: its value when it reads as a positive `i64`, else the default.
pub open spec fn ttl_of_setting(setting: Option<Seq<char>>) -> i64 {
    match setting {
        Some(s) => match parse_int(s) {
            Some(n) => if n > 0 {
                n as i64
            } else {
                DEFAULT_RESERVATION_TTL_SECS
            },
            None => DEFAULT_RESERVATION_TTL_SECS,
        },
        None => DEFAULT_RESERVATION_TTL_SECS,
    }
}

/// Reads the lifetime of a reservation from its setting.
pub fn reservation_ttl_setting(setting: Option<&str>) -> (r: i64)
    ensures
        r == ttl_of_setting(opt_text(setting)),
{
    match setting {
        Some(s) => match parse_i64(&chars_of(s)) {
            Some(n) => if n > 0 {
                n
            } else {
                DEFAULT_RESERVATION_TTL_SECS
            },
            None => DEFAULT_RESERVATION_TTL_SECS,
        },
        None => DEFAULT_RESERVATION_TTL_SECS,
    }
}

/// Whether the `QUOTA_TENANT_MISMATCH` setting only reports cross-tenant
/// requests: it reads exactly `warn`.
pub fn mismatch_warns(setting: Option<&str>) -> (r: bool)
    ensures
        r == (setting matches Some(s) && s@ == "warn"@),
{
    match setting {
        Some(s) => same_text(s, "warn"),
        None => false,
    }
}

/// The message of a request that reaches the service without a session.
pub open spec fn unauthenticated_message() -> Seq<char> {
    "Petición no autenticada [Fail-Closed]"@
}

impl QuotaServiceImpl {
    /// The session that authentication left on the request; without one the
    /// request is refused as unauthenticated.
    pub fn session(found: Option<&AuthenticatedSession>) -> (r: Result<AuthenticatedSession, RpcError>)
        ensures
            match found {
                Some(s) => r == Ok::<AuthenticatedSession, RpcError>(*s),
                None => r matches Err(e) && rpc_error_is(e, RpcCode::Unauthenticated, unauthenticated_message()),
            },
    {
        match found {
            Some(s) => Ok(
                AuthenticatedSession { tenant_id: s.tenant_id.clone(), user_id: s.user_id.clone(), jti: s.jti.clone() },
            ),
            None => Err(
                RpcError {
                    code: RpcCode::Unauthenticated,
                    message: String::from_str("Petición no autenticada [Fail-Closed]"),
                },
            ),
        }
    }

    /// The service, its reservations living as long as the
    /// `QUOTA_RESERVATION_TTL_SECS` setting says (90 seconds by default).
    pub fn new(ttl_setting: Option<&str>) -> (r: QuotaServiceImpl)
        ensures
            r.reservation_ttl == ttl_of_setting(opt_text(ttl_setting)),
    {
        QuotaServiceImpl::with_parts(reservation_ttl_setting(ttl_setting))
    }

    /// A service whose reservations live `reservation_ttl` seconds.
    pub fn with_parts(reservation_ttl: i64) -> (r: QuotaServiceImpl)
        ensures
            r.reservation_ttl == reservation_ttl,
    {
        QuotaServiceImpl { reservation_ttl }
    }

    /// Whether the session may work on the quota of `target_tenant`; refused
    /// with `PermissionDenied` otherwise.
    fn authorize(session: &AuthenticatedSession, access: AccessPolicy, target_tenant: &str) -> (r: Result<(), RpcError>)
        ensures
            r is Ok <==> may_act_for(*session, access, target_tenant@),
            r matches Err(e) ==> rpc_error_is(e, RpcCode::PermissionDenied, denied_message()),
    {
        if same_text(session.tenant_id.as_str(), target_tenant) || access.master_session
            || same_text(session.user_id.as_str(), "usr_system_bff")
            || same_text(session.user_id.as_str(), "usr_master") || access.mismatch_warn
        {
            Ok(())
        } else {
            Err(denied())
        }
    }

    /// A successful status.
    fn ok_status() -> (s: ReplyStatus)
        ensures
            status_ok(s),
    {
        ReplyStatus {
            success: true,
            error_code: String::new(),
            error_message: String::new(),
            error_context: None,
        }
    }

    /// A reserve refused in the reply.
    fn rejected(code: &str, message: String, context: Option<QuotaContext>) -> (r: ReserveTokensResponse)
        ensures
            reserve_rejected(r, code@, message@, context),
    {
        ReserveTokensResponse {
            status: ReplyStatus {
                success: false,
                error_code: code.to_owned(),
                error_message: message,
                error_context: context,
            },
            reservation_id: String::new(),
            allowed_tokens: 0,
        }
    }

    /// Starts a reserve: checks the session against the target tenant and the
    /// estimate, and asks for the quota in force.
    pub fn reserve_tokens(
        &self,
        session: &AuthenticatedSession,
        access: AccessPolicy,
        request: ReserveTokensRequest,
    ) -> (r: (ReserveFlow, QuotaAction))
        ensures
            reserve_start(*session, access, request, r.0, r.1),
    {
        if let Err(e) = Self::authorize(session, access, request.tenant_id.as_str()) {
            return (ReserveFlow::Done, QuotaAction::ReplyReserve(Err(e)));
        }
        if request.estimated_tokens <= 0 {
            return (
                ReserveFlow::Done,
                QuotaAction::ReplyReserve(
                    Err(failure(RpcCode::InvalidArgument, "estimated_tokens debe ser mayor que cero")),
                ),
            );
        }
        let action = QuotaAction::ResolveQuota {
            tenant_id: request.tenant_id.clone(),
            resource_domain: request.model_urn.clone(),
            limit_type: "TOKEN_COUNT",
        };
        (ReserveFlow::Resolving { request }, action)
    }

    /// Whether a reserve in `flow` can take `event`.
    pub fn reserve_accepts(&self, flow: &ReserveFlow, event: &QuotaEvent) -> (r: bool)
        ensures
            r == reserve_awaits(self.reservation_ttl, *flow, *event),
    {
        match flow {
            ReserveFlow::Resolving { request } => request.estimated_tokens > 0 && match event {
                QuotaEvent::Resolved { now, .. } => {
                    if self.reservation_ttl >= 0 {
                        *now <= i64::MAX - self.reservation_ttl
                    } else {
                        *now >= i64::MIN - self.reservation_ttl
                    }
                },
                _ => false,
            },
            ReserveFlow::Opening { request, .. } => request.estimated_tokens > 0 && matches!(event, QuotaEvent::Opened(_)),
            ReserveFlow::Debiting { request, .. } => request.estimated_tokens > 0 && matches!(event, QuotaEvent::Debit(_)),
            ReserveFlow::Marking { request, .. } => request.estimated_tokens > 0 && matches!(event, QuotaEvent::Marked(_)),
            ReserveFlow::Refunding { request, .. } => request.estimated_tokens > 0 && matches!(event, QuotaEvent::Settled(_)),
            ReserveFlow::Discarding { .. } => matches!(event, QuotaEvent::Closed(_)),
            ReserveFlow::Done => false,
        }
    }

    /// One step of a reserve: takes the outcome of the call that `flow` asked
    /// for and gives the next call, or the reply.
    pub fn reserve_step(&self, flow: ReserveFlow, event: QuotaEvent) -> (r: (ReserveFlow, QuotaAction))
        requires
            reserve_awaits(self.reservation_ttl, flow, event),
        ensures
            reserve_next(self.reservation_ttl, flow, event, r.0, r.1),
    {
        match flow {
            ReserveFlow::Resolving { request } => match event {
                QuotaEvent::Resolved { outcome, ticket, now } => match outcome {
                    Err(detail) => (
                        ReserveFlow::Done,
                        QuotaAction::ReplyReserve(Err(internal("Error consultando cuota: ", detail.as_str()))),
                    ),
                    Ok(None) => {
                        let mut message = joined("No quota configured for tenant=", request.tenant_id.as_str());
                        message.append(" model=");
                        message.append(request.model_urn.as_str());
                        (
                            ReserveFlow::Done,
                            QuotaAction::ReplyReserve(Ok(Self::rejected("QUOTA_NOT_CONFIGURED", message, None))),
                        )
                    },
                    Ok(Some(quota)) => {
                        let reservation = Reservation {
                            id: ticket,
                            tenant_id: request.tenant_id.clone(),
                            quota_id: quota.id.clone(),
                            estimated: request.estimated_tokens,
                            debited: false,
                            expires_at: now + self.reservation_ttl,
                        };
                        let action = QuotaAction::Open(reservation.duplicate());
                        (ReserveFlow::Opening { request, quota, reservation }, action)
                    },
                },
                _ => {
                    proof {
                        assert(false);
                    }
                    (ReserveFlow::Done, QuotaAction::ReplyReserve(Err(failure(RpcCode::Internal, ""))))
                },
            },
            ReserveFlow::Opening { request, quota, reservation } => match event {
                QuotaEvent::Opened(Err(detail)) => (
                    ReserveFlow::Done,
                    QuotaAction::ReplyReserve(Err(internal("Error abriendo la reserva: ", detail.as_str()))),
                ),
                QuotaEvent::Opened(Ok(())) => {
                    let action = QuotaAction::TryDebit {
                        tenant_id: request.tenant_id.clone(),
                        counter_id: quota.id.clone(),
                        amount: request.estimated_tokens,
                        max_limit: quota.max_limit,
                        seed_usage: quota.seed_usage,
                    };
                    (ReserveFlow::Debiting { request, quota, reservation }, action)
                },
                _ => {
                    proof {
                        assert(false);
                    }
                    (ReserveFlow::Done, QuotaAction::ReplyReserve(Err(failure(RpcCode::Internal, ""))))
                },
            },
            ReserveFlow::Debiting { request, quota, reservation } => match event {
                QuotaEvent::Debit(Err(detail)) => (
                    ReserveFlow::Done,
                    QuotaAction::ReplyReserve(Err(internal("Fallo escribiendo débito: ", detail.as_str()))),
                ),
                QuotaEvent::Debit(Ok(DebitOutcome::Exhausted { current_usage, limit })) => {
                    let context = QuotaContext {
                        limit,
                        current_usage,
                        resource_domain: request.model_urn.clone(),
                        period_key: None,
                    };
                    let reply = Self::rejected(
                        "QUOTA_EXHAUSTED",
                        String::from_str("Token quota has been fully exhausted"),
                        Some(context),
                    );
                    let action = QuotaAction::Close {
                        tenant_id: request.tenant_id,
                        id: reservation.id,
                        reason: CloseReason::Rejected,
                    };
                    (ReserveFlow::Discarding { reply: Ok(reply) }, action)
                },
                QuotaEvent::Debit(Ok(DebitOutcome::Debited { .. })) => {
                    let action = QuotaAction::MarkDebited {
                        tenant_id: request.tenant_id.clone(),
                        id: reservation.id.clone(),
                    };
                    (ReserveFlow::Marking { request, reservation }, action)
                },
                _ => {
                    proof {
                        assert(false);
                    }
                    (ReserveFlow::Done, QuotaAction::ReplyReserve(Err(failure(RpcCode::Internal, ""))))
                },
            },
            ReserveFlow::Marking { request, reservation } => match event {
                QuotaEvent::Marked(Ok(())) => {
                    let reply = ReserveTokensResponse {
                        status: Self::ok_status(),
                        reservation_id: wire_id(request.tenant_id.as_str(), reservation.id.as_str()),
                        allowed_tokens: request.estimated_tokens,
                    };
                    (ReserveFlow::Done, QuotaAction::ReplyReserve(Ok(reply)))
                },
                QuotaEvent::Marked(Err(_)) => {
                    let action = QuotaAction::Settle {
                        tenant_id: request.tenant_id.clone(),
                        counter_id: reservation.quota_id.clone(),
                        delta: -request.estimated_tokens,
                        key: SettleKey::Settlement(reservation.id.clone()),
                    };
                    (ReserveFlow::Refunding { request, reservation }, action)
                },
                _ => {
                    proof {
                        assert(false);
                    }
                    (ReserveFlow::Done, QuotaAction::ReplyReserve(Err(failure(RpcCode::Internal, ""))))
                },
            },
            ReserveFlow::Refunding { request, reservation } => {
                let action = QuotaAction::Close {
                    tenant_id: request.tenant_id,
                    id: reservation.id,
                    reason: CloseReason::Rejected,
                };
                let reply = Err(failure(RpcCode::Internal, "No se pudo registrar la reserva de tokens"));
                (ReserveFlow::Discarding { reply }, action)
            },
            ReserveFlow::Discarding { reply } => (ReserveFlow::Done, QuotaAction::ReplyReserve(reply)),
            ReserveFlow::Done => {
                proof {
                    assert(false);
                }
                (ReserveFlow::Done, QuotaAction::ReplyReserve(Err(failure(RpcCode::Internal, ""))))
            },
        }
    }

    /// A successful reconcile reply.
    fn reconciled(consumed: i64, returned: i64) -> (r: ReconcileTokensResponse)
        ensures
            reconcile_ok(r, consumed as int, returned as int),
    {
        ReconcileTokensResponse { status: Self::ok_status(), tokens_consumed: consumed, tokens_returned: returned }
    }

    /// Starts a reconcile: checks the consumption, reads the ticket, and
    /// either claims it or, for a ticket of the earlier format, charges what
    /// was consumed.
    pub fn reconcile_tokens(
        &self,
        session: AuthenticatedSession,
        access: AccessPolicy,
        request: ReconcileTokensRequest,
    ) -> (r: (ReconcileFlow, QuotaAction))
        requires
            request.actual_input_tokens >= 0 && request.actual_output_tokens >= 0
                ==> request.actual_input_tokens + request.actual_output_tokens <= i64::MAX,
        ensures
            reconcile_start(session, access, request, r.0, r.1),
    {
        if request.actual_input_tokens < 0 || request.actual_output_tokens < 0 {
            return (
                ReconcileFlow::Done,
                QuotaAction::ReplyReconcile(
                    Err(failure(RpcCode::InvalidArgument, "Los tokens consumidos no pueden ser negativos")),
                ),
            );
        }
        let actual = request.actual_input_tokens + request.actual_output_tokens;
        match split_wire_id(request.reservation_id.as_str()) {
            None => Self::reconcile_legacy(&session, access, request.reservation_id.as_str(), actual),
            Some((hint, id)) => {
                if let Err(e) = Self::authorize(&session, access, hint.as_str()) {
                    return (ReconcileFlow::Done, QuotaAction::ReplyReconcile(Err(e)));
                }
                let action = QuotaAction::Claim { tenant_id: hint, id, lease_secs: RECONCILE_LEASE_SECS };
                (ReconcileFlow::Claiming { session, access, wire: request.reservation_id, actual }, action)
            },
        }
    }

    /// A ticket of the earlier format: four colon-separated fields, the first
    /// the quota and the third the tenant.
    fn reconcile_legacy(
        session: &AuthenticatedSession,
        access: AccessPolicy,
        wire: &str,
        actual: i64,
    ) -> (r: (ReconcileFlow, QuotaAction))
        ensures
            legacy_start(*session, access, wire@, actual as int, r.0, r.1),
    {
        let fields = colon_split(wire);
        if fields.len() != 4 {
            return (
                ReconcileFlow::Done,
                QuotaAction::ReplyReconcile(
                    Err(failure(RpcCode::InvalidArgument, "Formato de reservation_id inválido")),
                ),
            );
        }
        let tenant = string_from_chars(&fields[2]);
        if let Err(e) = Self::authorize(session, access, tenant.as_str()) {
            return (ReconcileFlow::Done, QuotaAction::ReplyReconcile(Err(e)));
        }
        if actual > 0 {
            let quota = string_from_chars(&fields[0]);
            let action = QuotaAction::Settle {
                tenant_id: tenant,
                counter_id: quota,
                delta: actual,
                key: SettleKey::LateCharge(wire.to_owned()),
            };
            (ReconcileFlow::ChargingLegacy { actual }, action)
        } else {
            (ReconcileFlow::Done, QuotaAction::ReplyReconcile(Ok(Self::reconciled(actual, 0))))
        }
    }

    /// A reconcile of a reservation that the store had already closed.
    fn reconcile_late(r: Reservation, reason: CloseReason, actual: i64) -> (out: (ReconcileFlow, QuotaAction))
        requires
            actual >= 0,
            r.estimated >= 0,
        ensures
            late_next(r, reason, actual as int, out.0, out.1),
    {
        match reason {
            CloseReason::Expired => {
                if actual > 0 {
                    let action = QuotaAction::Settle {
                        tenant_id: r.tenant_id.clone(),
                        counter_id: r.quota_id.clone(),
                        delta: actual,
                        key: SettleKey::LateCharge(r.id.clone()),
                    };
                    (ReconcileFlow::ChargingLate { reservation: r, actual }, action)
                } else {
                    (ReconcileFlow::Done, QuotaAction::ReplyReconcile(Ok(Self::reconciled(actual, r.estimated))))
                }
            },
            CloseReason::Settled => {
                let returned = if r.estimated - actual > 0 {
                    r.estimated - actual
                } else {
                    0
                };
                (ReconcileFlow::Done, QuotaAction::ReplyReconcile(Ok(Self::reconciled(actual, returned))))
            },
            _ => {
                let mut message = joined("La reserva ", r.id.as_str());
                message.append(" no llegó a aplicarse (");
                message.append(reason.as_str());
                message.append(")");
                let e = RpcError { code: RpcCode::FailedPrecondition, message };
                (ReconcileFlow::Done, QuotaAction::ReplyReconcile(Err(e)))
            },
        }
    }

    /// Whether a reconcile in `flow` can take `event`.
    pub fn reconcile_accepts(&self, flow: &ReconcileFlow, event: &QuotaEvent) -> (r: bool)
        ensures
            r == reconcile_awaits(*flow, *event),
    {
        match flow {
            ReconcileFlow::Claiming { actual, .. } => *actual >= 0 && match event {
                QuotaEvent::Claimed(Ok(ClaimResult::Claimed(r))) => r.estimated >= 0,
                QuotaEvent::Claimed(Ok(ClaimResult::Closed(r, _))) => r.estimated >= 0,
                QuotaEvent::Claimed(_) => true,
                _ => false,
            },
            ReconcileFlow::Settling { reservation, actual } => *actual >= 0 && reservation.estimated >= 0
                && matches!(event, QuotaEvent::Settled(_)),
            ReconcileFlow::Closing { .. } => matches!(event, QuotaEvent::Closed(_)),
            ReconcileFlow::ChargingLate { .. } => matches!(event, QuotaEvent::Settled(_)),
            ReconcileFlow::ChargingLegacy { .. } => matches!(event, QuotaEvent::Settled(_)),
            ReconcileFlow::Done => false,
        }
    }

    /// One step of a reconcile: takes the outcome of the call that `flow`
    /// asked for and gives the next call, or the reply.
    pub fn reconcile_step(&self, flow: ReconcileFlow, event: QuotaEvent) -> (r: (ReconcileFlow, QuotaAction))
        requires
            reconcile_awaits(flow, event),
        ensures
            reconcile_next(flow, event, r.0, r.1),
    {
        match flow {
            ReconcileFlow::Claiming { session, access, wire, actual } => match event {
                QuotaEvent::Claimed(Err(detail)) => (
                    ReconcileFlow::Done,
                    QuotaAction::ReplyReconcile(Err(internal("Error leyendo la reserva: ", detail.as_str()))),
                ),
                QuotaEvent::Claimed(Ok(ClaimResult::Claimed(r))) => {
                    if let Err(e) = Self::authorize(&session, access, r.tenant_id.as_str()) {
                        return (ReconcileFlow::Done, QuotaAction::ReplyReconcile(Err(e)));
                    }
                    let delta = if r.debited {
                        actual - r.estimated
                    } else {
                        actual
                    };
                    let action = QuotaAction::Settle {
                        tenant_id: r.tenant_id.clone(),
                        counter_id: r.quota_id.clone(),
                        delta,
                        key: SettleKey::Settlement(r.id.clone()),
                    };
                    (ReconcileFlow::Settling { reservation: r, actual }, action)
                },
                QuotaEvent::Claimed(Ok(ClaimResult::Closed(r, reason))) => Self::reconcile_late(r, reason, actual),
                QuotaEvent::Claimed(Ok(ClaimResult::Leased(_))) => (
                    ReconcileFlow::Done,
                    QuotaAction::ReplyReconcile(
                        Err(
                            failure(
                                RpcCode::Aborted,
                                "La reserva se está conciliando en este momento; reintenta",
                            ),
                        ),
                    ),
                ),
                QuotaEvent::Claimed(Ok(ClaimResult::NotFound)) => {
                    let e = RpcError { code: RpcCode::NotFound, message: joined("No existe la reserva ", wire.as_str()) };
                    (ReconcileFlow::Done, QuotaAction::ReplyReconcile(Err(e)))
                },
                _ => {
                    proof {
                        assert(false);
                    }
                    (ReconcileFlow::Done, QuotaAction::ReplyReconcile(Err(failure(RpcCode::Internal, ""))))
                },
            },
            ReconcileFlow::Settling { reservation: r, actual } => match event {
                QuotaEvent::Settled(Err(detail)) => (
                    ReconcileFlow::Done,
                    QuotaAction::ReplyReconcile(
                        Err(internal("Fallo escribiendo conciliación: ", detail.as_str())),
                    ),
                ),
                _ => {
                    let returned = if r.debited && r.estimated - actual > 0 {
                        r.estimated - actual
                    } else {
                        0
                    };
                    let reply = Self::reconciled(actual, returned);
                    let action = QuotaAction::Close { tenant_id: r.tenant_id, id: r.id, reason: CloseReason::Settled };
                    (ReconcileFlow::Closing { reply }, action)
                },
            },
            ReconcileFlow::Closing { reply } => (ReconcileFlow::Done, QuotaAction::ReplyReconcile(Ok(reply))),
            ReconcileFlow::ChargingLate { reservation: r, actual } => match event {
                QuotaEvent::Settled(Err(detail)) => (
                    ReconcileFlow::Done,
                    QuotaAction::ReplyReconcile(Err(internal("Fallo apuntando el consumo: ", detail.as_str()))),
                ),
                _ => (ReconcileFlow::Done, QuotaAction::ReplyReconcile(Ok(Self::reconciled(actual, r.estimated)))),
            },
            ReconcileFlow::ChargingLegacy { actual } => match event {
                QuotaEvent::Settled(Err(detail)) => (
                    ReconcileFlow::Done,
                    QuotaAction::ReplyReconcile(
                        Err(internal("Fallo escribiendo conciliación: ", detail.as_str())),
                    ),
                ),
                _ => (ReconcileFlow::Done, QuotaAction::ReplyReconcile(Ok(Self::reconciled(actual, 0)))),
            },
            ReconcileFlow::Done => {
                proof {
                    assert(false);
                }
                (ReconcileFlow::Done, QuotaAction::ReplyReconcile(Err(failure(RpcCode::Internal, ""))))
            },
        }
    }
}

} // verus!
