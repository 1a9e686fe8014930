//! The quota step of the ingest pipeline: which operations count, who is
//! exempt, what a refusal carries, and what is given back when a later step
//! fails.
//!
//! Creates count against the tenant's `WRITE_COUNT` quota and reads against
//! its `READ_COUNT` quota, one unit each; every other operation passes. The
//! quota lookup and the counter are outside services, so the step is a state
//! machine: each call returns the next outside call to make or the verdict.
use vstd::prelude::*;
use vstd::string::StringExecFns;
use crate::errors::{DomainError, ErrorCode, QuotaContext};
use crate::quota::service::{is_system_user, ActiveQuota, DebitOutcome};
use crate::text::{chars_of, eq_chars, joined, lower_seq, lower_vec, same_text};

verus! {

/// What the quota step reads of the pipeline context.
#[derive(Debug)]
pub struct QuotaCheck {
    pub tenant_id: String,
    pub user_id: String,
    pub entity_type: String,
    pub operation: String,
    /// The caller belongs to the master tenant.
    pub is_super_master: bool,
    /// The security rules exempt the entity type from quotas.
    pub quota_exempt: bool,
}

/// The debit that a successful step leaves in the context, pending until the
/// whole pipeline succeeds.
#[derive(Debug)]
pub struct QuotaReservation {
    /// The counter that was debited: what a compensation gives back.
    pub id: String,
    /// The configuration row of the quota.
    pub quota_id: String,
    pub debit: i64,
    pub domain: String,
    pub period_key: String,
    pub new_usage: i64,
    pub status: String,
}

/// A unit to give back to a counter.
#[derive(Debug)]
pub struct Release {
    pub tenant_id: String,
    pub counter_id: String,
    pub amount: i64,
}

/// Where a check stands.
#[derive(Debug)]
pub enum GuardFlow {
    /// Waiting for the quota lookup.
    Resolving { tenant_id: String, domain: String, limit_type: &'static str },
    /// Waiting for the counter's debit.
    Debiting { tenant_id: String, domain: String, quota: ActiveQuota },
    Done,
}

/// The next outside call, or the verdict.
#[derive(Debug)]
pub enum GuardAction {
    /// The operation goes on without touching any quota.
    Pass,
    /// Look up the quota in force.
    ResolveQuota { tenant_id: String, resource_domain: String, limit_type: &'static str },
    /// Debit `amount` if the counter stays within `max_limit`.
    TryDebit { tenant_id: String, counter_id: String, amount: i64, max_limit: i64, seed_usage: i64 },
    /// The operation goes on, carrying the pending debit.
    Reserve(QuotaReservation),
    /// The operation is refused.
    Fail(DomainError),
}

/// The outcome of the last outside call.
#[derive(Debug)]
pub enum GuardEvent {
    Resolved(Result<Option<ActiveQuota>, DomainError>),
    Debit(Result<DebitOutcome, DomainError>),
}

/// The quota step.
#[derive(Debug)]
pub struct QuotaGuardStep {}

/// The master tenant, the service accounts and exempt entity types skip quotas.
pub open spec fn bypasses(c: QuotaCheck) -> bool {
    c.is_super_master || is_system_user(c.user_id@) || c.quota_exempt
}

/// The quota that an operation counts against, by its name in any letter
/// case: creates count writes, reads count reads, the rest nothing.
pub open spec fn limit_type_of(operation: Seq<char>) -> Option<Seq<char>> {
    if lower_seq(operation) == "create"@ {
        Some("WRITE_COUNT"@)
    } else if lower_seq(operation) == "get"@ {
        Some("READ_COUNT"@)
    } else {
        None
    }
}

/// The first step of a check.
pub open spec fn guard_start(c: QuotaCheck, flow: GuardFlow, action: GuardAction) -> bool {
    if bypasses(c) || limit_type_of(c.operation@) is None {
        flow is Done && action is Pass
    } else {
        &&& action matches GuardAction::ResolveQuota { tenant_id, resource_domain, limit_type }
        &&& tenant_id == c.tenant_id
        &&& resource_domain == c.entity_type
        &&& Some(limit_type@) == limit_type_of(c.operation@)
        &&& flow matches GuardFlow::Resolving { tenant_id: t, domain, limit_type: lt }
        &&& t == c.tenant_id
        &&& domain == c.entity_type
        &&& lt == limit_type
    }
}

/// `e` is a refusal of the quota step with this code and detail.
pub open spec fn quota_refusal(e: DomainError, detail: Seq<char>, context: Option<QuotaContext>) -> bool {
    &&& e.code == ErrorCode::Quota001
    &&& e.detail@ == detail
    &&& e.stage@ == "quota"@
    &&& !e.retryable
    &&& e.context == context
}

/// The events that a check in `flow` can take.
pub open spec fn guard_awaits(flow: GuardFlow, event: GuardEvent) -> bool {
    match flow {
        GuardFlow::Resolving { .. } => event is Resolved,
        GuardFlow::Debiting { .. } => event is Debit,
        GuardFlow::Done => false,
    }
}

/// One step of a check.
pub open spec fn guard_next(flow: GuardFlow, event: GuardEvent, next: GuardFlow, action: GuardAction) -> bool {
    match flow {
        GuardFlow::Resolving { tenant_id, domain, limit_type } => match event {
            GuardEvent::Resolved(Err(e)) => next is Done && action == GuardAction::Fail(e),
            GuardEvent::Resolved(Ok(None)) => {
                &&& next is Done
                &&& action matches GuardAction::Fail(e)
                &&& quota_refusal(
                    e,
                    "No quota configured for tenant="@ + tenant_id@ + " resource_domain="@ + domain@
                        + " limit_type="@ + limit_type@,
                    None,
                )
            },
            GuardEvent::Resolved(Ok(Some(quota))) => {
                &&& action matches GuardAction::TryDebit {
                    tenant_id: t,
                    counter_id,
                    amount,
                    max_limit,
                    seed_usage,
                }
                &&& t == tenant_id
                &&& counter_id == quota.counter_id
                &&& amount == 1
                &&& max_limit == quota.max_limit
                &&& seed_usage == quota.seed_usage
                &&& next == GuardFlow::Debiting { tenant_id, domain, quota }
            },
            _ => false,
        },
        GuardFlow::Debiting { tenant_id, domain, quota } => match event {
            GuardEvent::Debit(Err(e)) => next is Done && action == GuardAction::Fail(e),
            GuardEvent::Debit(Ok(DebitOutcome::Exhausted { current_usage, limit })) => {
                &&& next is Done
                &&& action matches GuardAction::Fail(e)
                &&& quota_refusal(e, "Quota exhausted — upgrade plan or wait for reset"@, e.context)
                &&& e.context matches Some(c)
                &&& c.limit == limit
                &&& c.current_usage == current_usage
                &&& c.resource_domain == domain
                &&& c.period_key == Some(quota.period_key)
            },
            GuardEvent::Debit(Ok(DebitOutcome::Debited { new_usage })) => {
                &&& next is Done
                &&& action matches GuardAction::Reserve(r)
                &&& r.id == quota.counter_id
                &&& r.quota_id == quota.id
                &&& r.debit == 1
                &&& r.domain == domain
                &&& r.period_key == quota.period_key
                &&& r.new_usage == new_usage
                &&& r.status@ == "pending"@
            },
            _ => false,
        },
        GuardFlow::Done => false,
    }
}

/// What a compensation gives back: the unit debited from the reservation's
/// counter, or nothing when no debit is pending.
pub open spec fn compensation(tenant_id: Seq<char>, reservation: Option<QuotaReservation>, r: Option<Release>) -> bool {
    match reservation {
        None => r is None,
        Some(q) => r matches Some(rel) && rel.tenant_id@ == tenant_id && rel.counter_id == q.id && rel.amount == 1,
    }
}

impl QuotaGuardStep {
    /// The quota step.
    pub fn new() -> (r: QuotaGuardStep) {
        QuotaGuardStep {  }
    }

    /// Starts the check of one operation: exempt callers and operations that
    /// do not count pass at once; the others look up their quota.
    pub fn execute(&self, check: &QuotaCheck) -> (r: (GuardFlow, GuardAction))
        ensures
            guard_start(*check, r.0, r.1),
    {
        if check.is_super_master || same_text(check.user_id.as_str(), "usr_system_bff")
            || same_text(check.user_id.as_str(), "usr_master") || check.quota_exempt
        {
            return (GuardFlow::Done, GuardAction::Pass);
        }
        let op = lower_vec(&chars_of(check.operation.as_str()));
        let limit_type: &'static str = if eq_chars(&op, &chars_of("create")) {
            "WRITE_COUNT"
        } else if eq_chars(&op, &chars_of("get")) {
            "READ_COUNT"
        } else {
            return (GuardFlow::Done, GuardAction::Pass);
        };
        let action = GuardAction::ResolveQuota {
            tenant_id: check.tenant_id.clone(),
            resource_domain: check.entity_type.clone(),
            limit_type,
        };
        let flow = GuardFlow::Resolving {
            tenant_id: check.tenant_id.clone(),
            domain: check.entity_type.clone(),
            limit_type,
        };
        (flow, action)
    }

    /// Whether a check in `flow` can take `event`.
    pub fn accepts(&self, flow: &GuardFlow, event: &GuardEvent) -> (r: bool)
        ensures
            r == guard_awaits(*flow, *event),
    {
        match flow {
            GuardFlow::Resolving { .. } => matches!(event, GuardEvent::Resolved(_)),
            GuardFlow::Debiting { .. } => matches!(event, GuardEvent::Debit(_)),
            GuardFlow::Done => false,
        }
    }

    /// One step of a check: takes the outcome of the call that `flow` asked
    /// for and gives the next call, or the verdict.
    pub fn step(&self, flow: GuardFlow, event: GuardEvent) -> (r: (GuardFlow, GuardAction))
        requires
            guard_awaits(flow, event),
        ensures
            guard_next(flow, event, r.0, r.1),
    {
        match flow {
            GuardFlow::Resolving { tenant_id, domain, limit_type } => match event {
                GuardEvent::Resolved(Err(e)) => (GuardFlow::Done, GuardAction::Fail(e)),
                GuardEvent::Resolved(Ok(None)) => {
                    let mut detail = joined("No quota configured for tenant=", tenant_id.as_str());
                    detail.append(" resource_domain=");
                    detail.append(domain.as_str());
                    detail.append(" limit_type=");
                    detail.append(limit_type);
                    let e = DomainError::new(ErrorCode::Quota001, detail).with_stage("quota");
                    (GuardFlow::Done, GuardAction::Fail(e))
                },
                GuardEvent::Resolved(Ok(Some(quota))) => {
                    let action = GuardAction::TryDebit {
                        tenant_id: tenant_id.clone(),
                        counter_id: quota.counter_id.clone(),
                        amount: 1,
                        max_limit: quota.max_limit,
                        seed_usage: quota.seed_usage,
                    };
                    (GuardFlow::Debiting { tenant_id, domain, quota }, action)
                },
                _ => {
                    proof {
                        assert(false);
                    }
                    (GuardFlow::Done, GuardAction::Pass)
                },
            },
            GuardFlow::Debiting { tenant_id, domain, quota } => match event {
                GuardEvent::Debit(Err(e)) => (GuardFlow::Done, GuardAction::Fail(e)),
                GuardEvent::Debit(Ok(DebitOutcome::Exhausted { current_usage, limit })) => {
                    let context = QuotaContext {
                        limit,
                        current_usage,
                        resource_domain: domain,
                        period_key: Some(quota.period_key),
                    };
                    let e = DomainError::new(
                        ErrorCode::Quota001,
                        String::from_str("Quota exhausted — upgrade plan or wait for reset"),
                    ).with_stage("quota").with_context(context);
                    (GuardFlow::Done, GuardAction::Fail(e))
                },
                GuardEvent::Debit(Ok(DebitOutcome::Debited { new_usage })) => {
                    let r = QuotaReservation {
                        id: quota.counter_id,
                        quota_id: quota.id,
                        debit: 1,
                        domain,
                        period_key: quota.period_key,
                        new_usage,
                        status: String::from_str("pending"),
                    };
                    (GuardFlow::Done, GuardAction::Reserve(r))
                },
                _ => {
                    proof {
                        assert(false);
                    }
                    (GuardFlow::Done, GuardAction::Pass)
                },
            },
            GuardFlow::Done => {
                proof {
                    assert(false);
                }
                (GuardFlow::Done, GuardAction::Pass)
            },
        }
    }

    /// What to give back when a later step of the pipeline fails: the unit
    /// debited from the reservation's counter, if a debit is pending.
    pub fn compensate(&self, tenant_id: &str, reservation: &Option<QuotaReservation>) -> (r: Option<Release>)
        ensures
            compensation(tenant_id@, *reservation, r),
    {
        match reservation {
            None => None,
            Some(q) => Some(Release { tenant_id: tenant_id.to_owned(), counter_id: q.id.clone(), amount: 1 }),
        }
    }
}

/// A check that debits its unit and is then compensated gives the unit back
/// to the very counter it was taken from: the counter ends where it started.
pub proof fn lemma_compensation_undoes_debit(
    tenant_id: String,
    domain: String,
    quota: ActiveQuota,
    debit: GuardAction,
    debiting: GuardFlow,
    new_usage: i64,
    done: GuardFlow,
    verdict: GuardAction,
    release: Option<Release>,
)
    requires
        guard_next(
            GuardFlow::Resolving { tenant_id, domain, limit_type: "WRITE_COUNT" },
            GuardEvent::Resolved(Ok(Some(quota))),
            debiting,
            debit,
        ),
        guard_next(debiting, GuardEvent::Debit(Ok(DebitOutcome::Debited { new_usage })), done, verdict),
        verdict matches GuardAction::Reserve(r) && compensation(tenant_id@, Some(r), release),
    ensures
        debit matches GuardAction::TryDebit { counter_id, amount, .. } && release matches Some(rel)
            && rel.counter_id == counter_id && amount - rel.amount == 0,
{
}

/// Operations other than creates and reads never touch a quota.
pub proof fn lemma_uncounted_operations_pass(c: QuotaCheck, flow: GuardFlow, action: GuardAction)
    requires
        lower_seq(c.operation@) != "create"@,
        lower_seq(c.operation@) != "get"@,
        guard_start(c, flow, action),
    ensures
        flow is Done,
        action is Pass,
{
}

} // verus!
