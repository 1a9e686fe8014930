//! What the reserve and reconcile calls promise together about the quota
//! counter, stated over the changes that their actions ask of it.
use vstd::prelude::*;
use crate::quota::service::{
    may_act_for, reconcile_fails, reconcile_next, reconcile_ok, reconcile_replies, reconcile_start,
    reserve_fails, reserve_next, reserve_start, denied_message, unused_tokens, AccessPolicy,
    ActiveQuota, ClaimResult, CloseReason, DebitOutcome, QuotaAction,
    QuotaEvent, ReconcileFlow, ReconcileTokensRequest, Reservation, ReserveFlow,
    ReserveTokensRequest,
};
use crate::errors::RpcCode;
use crate::interceptors::AuthenticatedSession;
use crate::quota::wire::split_wire_spec;

verus! {

/// The change that an action asks of the quota counter when it is applied: a
/// debit adds its amount, a settlement its delta; nothing else touches it.
pub open spec fn counter_delta(a: QuotaAction) -> int {
    match a {
        QuotaAction::TryDebit { amount, .. } => amount as int,
        QuotaAction::Settle { delta, .. } => delta as int,
        _ => 0,
    }
}

/// An action that is the reply, with no outside call left to make.
pub open spec fn is_reply(a: QuotaAction) -> bool {
    a is ReplyReserve || a is ReplyReconcile
}

/// Reserving an estimate and reconciling the ticket charges the counter with
/// exactly what was consumed, and hands back the estimate that was not used.
///
/// The reserve's debit asks for the estimate; the reconcile of the same
/// reservation, claimed after its debit was recorded, settles the difference.
pub proof fn lemma_reserve_then_reconcile_charges_consumption(
    ttl: i64,
    request: ReserveTokensRequest,
    quota: ActiveQuota,
    reservation: Reservation,
    debiting: ReserveFlow,
    debit: QuotaAction,
    session: AuthenticatedSession,
    access: AccessPolicy,
    wire: String,
    actual: i64,
    claimed: Reservation,
    settling: ReconcileFlow,
    settle: QuotaAction,
    closing: ReconcileFlow,
    close: QuotaAction,
)
    requires
        reserve_next(
            ttl,
            ReserveFlow::Opening { request, quota, reservation },
            QuotaEvent::Opened(Ok(())),
            debiting,
            debit,
        ),
        claimed.debited,
        claimed.estimated == request.estimated_tokens,
        may_act_for(session, access, claimed.tenant_id@),
        reconcile_next(
            ReconcileFlow::Claiming { session, access, wire, actual },
            QuotaEvent::Claimed(Ok(ClaimResult::Claimed(claimed))),
            settling,
            settle,
        ),
        reconcile_next(settling, QuotaEvent::Settled(Ok(())), closing, close),
    ensures
        counter_delta(debit) + counter_delta(settle) == actual,
        closing matches ReconcileFlow::Closing { reply } && reconcile_ok(
            reply,
            actual as int,
            unused_tokens(request.estimated_tokens as int, actual as int),
        ),
{
}

/// A reconcile repeated after the ticket was settled changes nothing on the
/// counter and answers the figures of the first one.
pub proof fn lemma_repeated_reconcile_changes_nothing(
    session: AuthenticatedSession,
    access: AccessPolicy,
    wire: String,
    actual: i64,
    settled: Reservation,
    next: ReconcileFlow,
    action: QuotaAction,
)
    requires
        settled.debited,
        reconcile_next(
            ReconcileFlow::Claiming { session, access, wire, actual },
            QuotaEvent::Claimed(Ok(ClaimResult::Closed(settled, CloseReason::Settled))),
            next,
            action,
        ),
    ensures
        counter_delta(action) == 0,
        next is Done,
        reconcile_replies(action, actual as int, unused_tokens(settled.estimated as int, actual as int)),
{
}

/// A reconcile that arrives after the sweep gave an expired reservation's
/// estimate back charges what was consumed, so that the debit, the refund
/// and the late charge together come to exactly the consumption.
pub proof fn lemma_late_reconcile_charges_consumption(
    session: AuthenticatedSession,
    access: AccessPolicy,
    wire: String,
    actual: i64,
    expired: Reservation,
    next: ReconcileFlow,
    action: QuotaAction,
)
    requires
        actual >= 0,
        reconcile_next(
            ReconcileFlow::Claiming { session, access, wire, actual },
            QuotaEvent::Claimed(Ok(ClaimResult::Closed(expired, CloseReason::Expired))),
            next,
            action,
        ),
    ensures
        expired.estimated - expired.estimated + counter_delta(action) == actual,
{
}

/// A reservation that never debited, because the limit refused it or it
/// expired first, cannot be reconciled: nothing is charged and the call fails.
pub proof fn lemma_undebited_reservation_is_never_charged(
    session: AuthenticatedSession,
    access: AccessPolicy,
    wire: String,
    actual: i64,
    r: Reservation,
    reason: CloseReason,
    next: ReconcileFlow,
    action: QuotaAction,
)
    requires
        reason == CloseReason::Rejected || reason == CloseReason::Abandoned,
        reconcile_next(
            ReconcileFlow::Claiming { session, access, wire, actual },
            QuotaEvent::Claimed(Ok(ClaimResult::Closed(r, reason))),
            next,
            action,
        ),
    ensures
        counter_delta(action) == 0,
        action matches QuotaAction::ReplyReconcile(Err(e)) && e.code == RpcCode::FailedPrecondition,
{
}

/// An exhausted quota leaves no ticket open: the reservation is closed as
/// rejected, and the reply that follows refuses with `QUOTA_EXHAUSTED` and
/// hands out no ticket.
pub proof fn lemma_exhausted_quota_leaves_no_ticket(
    ttl: i64,
    request: ReserveTokensRequest,
    quota: ActiveQuota,
    reservation: Reservation,
    current_usage: i64,
    limit: i64,
    discarding: ReserveFlow,
    close: QuotaAction,
    done: ReserveFlow,
    reply: QuotaAction,
    closed: Result<(), String>,
)
    requires
        reserve_next(
            ttl,
            ReserveFlow::Debiting { request, quota, reservation },
            QuotaEvent::Debit(Ok(DebitOutcome::Exhausted { current_usage, limit })),
            discarding,
            close,
        ),
        reserve_next(ttl, discarding, QuotaEvent::Closed(closed), done, reply),
    ensures
        close == (QuotaAction::Close {
            tenant_id: request.tenant_id,
            id: reservation.id,
            reason: CloseReason::Rejected,
        }),
        counter_delta(close) == 0,
        done is Done,
        reply matches QuotaAction::ReplyReserve(Ok(r)) && !r.status.success
            && r.status.error_code@ == "QUOTA_EXHAUSTED"@ && r.reservation_id@.len() == 0,
{
}

/// A debit that could not be recorded is given back and its reservation is
/// closed as rejected, so that the counter ends where it started.
pub proof fn lemma_unrecorded_debit_is_undone(
    ttl: i64,
    request: ReserveTokensRequest,
    quota: ActiveQuota,
    reservation: Reservation,
    debiting: ReserveFlow,
    debit: QuotaAction,
    mark: QuotaAction,
    detail: String,
    refunding: ReserveFlow,
    refund: QuotaAction,
    settled: Result<(), String>,
    discarding: ReserveFlow,
    close: QuotaAction,
)
    requires
        reservation.quota_id == quota.id,
        reserve_next(
            ttl,
            ReserveFlow::Opening { request, quota, reservation },
            QuotaEvent::Opened(Ok(())),
            debiting,
            debit,
        ),
        reserve_next(
            ttl,
            ReserveFlow::Marking { request, reservation },
            QuotaEvent::Marked(Err(detail)),
            refunding,
            refund,
        ),
        reserve_next(ttl, refunding, QuotaEvent::Settled(settled), discarding, close),
    ensures
        counter_delta(debit) + counter_delta(refund) == 0,
        refund matches QuotaAction::Settle { counter_id, .. } && counter_id == quota.id,
        close matches QuotaAction::Close { reason, .. } && reason == CloseReason::Rejected,
        discarding matches ReserveFlow::Discarding { reply: Err(e) } && e.code == RpcCode::Internal,
{
}

/// A session that may not act for the requested tenant gets an answer and no
/// outside call: nothing is looked up, opened, debited or claimed.
pub proof fn lemma_foreign_session_touches_nothing(
    session: AuthenticatedSession,
    access: AccessPolicy,
    reserve: ReserveTokensRequest,
    reserve_flow: ReserveFlow,
    reserve_action: QuotaAction,
    reconcile: ReconcileTokensRequest,
    reconcile_flow: ReconcileFlow,
    reconcile_action: QuotaAction,
)
    requires
        !may_act_for(session, access, reserve.tenant_id@),
        reserve_start(session, access, reserve, reserve_flow, reserve_action),
        reconcile.actual_input_tokens >= 0,
        reconcile.actual_output_tokens >= 0,
        split_wire_spec(reconcile.reservation_id@) matches Some((hint, _)) && !may_act_for(
            session,
            access,
            hint,
        ),
        reconcile_start(session, access, reconcile, reconcile_flow, reconcile_action),
    ensures
        reserve_flow is Done,
        reserve_fails(reserve_action, RpcCode::PermissionDenied, denied_message()),
        reconcile_flow is Done,
        reconcile_fails(reconcile_action, RpcCode::PermissionDenied, denied_message()),
{
}

} // verus!
