//! The audit record of a request: who did what on which domain, and whether
//! it succeeded. Fields missing from the request are recorded as `UNKNOWN`.
use vstd::prelude::*;
use vstd::string::StringExecFns;

verus! {

/// Writes an audit record at the end of every request.
#[derive(Debug)]
pub struct AuditInterceptorImpl {}

impl AuditInterceptorImpl {
    /// The audit interceptor.
    pub fn new() -> (r: AuditInterceptorImpl) {
        AuditInterceptorImpl {  }
    }
}

/// Who, on what, and how it ended.
#[derive(Debug)]
pub struct AuditSubject {
    pub tenant_id: String,
    pub user_id: String,
    pub resource_domain: String,
    pub status: String,
}

/// A field of the request, or `UNKNOWN`.
pub open spec fn known_or_unknown(v: Option<Seq<char>>) -> Seq<char> {
    match v {
        Some(s) => s,
        None => "UNKNOWN"@,
    }
}

/// The status of the audited request.
pub open spec fn outcome_text(succeeded: bool) -> Seq<char> {
    if succeeded {
        "SUCCESS"@
    } else {
        "FAILURE"@
    }
}

fn or_unknown(v: Option<&str>) -> (r: String)
    ensures
        r@ == known_or_unknown(crate::text::opt_text(v)),
{
    match v {
        Some(s) => s.to_owned(),
        None => String::from_str("UNKNOWN"),
    }
}

impl AuditInterceptorImpl {
    /// The subject of the audit record of a request whose `tenant_id`,
    /// `user_id` and `entity_type` fields are given when they are strings.
    pub fn audit_subject(
        &self,
        tenant_id: Option<&str>,
        user_id: Option<&str>,
        entity_type: Option<&str>,
        succeeded: bool,
    ) -> (r: AuditSubject)
        ensures
            r.tenant_id@ == known_or_unknown(crate::text::opt_text(tenant_id)),
            r.user_id@ == known_or_unknown(crate::text::opt_text(user_id)),
            r.resource_domain@ == known_or_unknown(crate::text::opt_text(entity_type)),
            r.status@ == outcome_text(succeeded),
    {
        AuditSubject {
            tenant_id: or_unknown(tenant_id),
            user_id: or_unknown(user_id),
            resource_domain: or_unknown(entity_type),
            status: if succeeded {
                String::from_str("SUCCESS")
            } else {
                String::from_str("FAILURE")
            },
        }
    }
}

} // verus!
