//! Tenant isolation of the EAV engine: every key carries a validated tenant,
//! and the system tenant is refused unless the context allows system work.
use vstd::prelude::*;
use vstd::string::StringExecFns;
use crate::codice::{model_index, CodeRegistry};
use crate::errors::{DomainError, ErrorCode};
use crate::text::{chars_of, eq_chars};

verus! {

/// Tenant id of bootstrap work (seeds, migrations).
pub const SYSTEM_TENANT_ID: &'static str = "SYSTEM";

/// The system tenant id as characters.
pub open spec fn system_tenant() -> Seq<char> {
    seq!['S', 'Y', 'S', 'T', 'E', 'M']
}

/// Guards the tenant of every EAV key.
pub struct TenantGuard {
    /// Whether the system tenant may be used.
    pub allowed_system_ops: bool,
}

/// A tenant id is acceptable when it is not empty and, unless system work is
/// allowed, is not the system tenant.
pub open spec fn tenant_ok(allowed_system_ops: bool, tenant_id: Seq<char>) -> bool {
    tenant_id.len() > 0 && (allowed_system_ops || tenant_id != system_tenant())
}

/// The partition key of an entity: `T#<tenant>#E#<entity>`.
pub open spec fn eavt_pk_spec(tenant_id: Seq<char>, entity_id: Seq<char>) -> Seq<char> {
    "T#"@ + tenant_id + "#E#"@ + entity_id
}

impl TenantGuard {
    /// A guard for user work: the system tenant is refused.
    pub fn new() -> (r: TenantGuard)
        ensures
            !r.allowed_system_ops,
    {
        TenantGuard { allowed_system_ops: false }
    }

    /// A guard for system work: the system tenant is accepted.
    pub fn with_system_ops() -> (r: TenantGuard)
        ensures
            r.allowed_system_ops,
    {
        TenantGuard { allowed_system_ops: true }
    }

    /// Checks that `tenant_id` is not empty and, in user context, is not the
    /// system tenant; refused with `AUTH_403` otherwise.
    pub fn validate_tenant(&self, tenant_id: &str) -> (r: Result<(), DomainError>)
        ensures
            r is Ok <==> tenant_ok(self.allowed_system_ops, tenant_id@),
            r is Err ==> r->Err_0.code == ErrorCode::Auth403,
    {
        let t = chars_of(tenant_id);
        if t.len() == 0 {
            return Err(DomainError::new(ErrorCode::Auth403, String::from_str("tenant_id no puede ser vacío")));
        }
        let sys = vec!['S', 'Y', 'S', 'T', 'E', 'M'];
        assert(sys@ =~= system_tenant());
        if eq_chars(&t, &sys) && !self.allowed_system_ops {
            return Err(DomainError::new(
                ErrorCode::Auth403,
                String::from_str("Operaciones del sistema SYSTEM_TENANT_ID no permitidas en este contexto"),
            ));
        }
        Ok(())
    }

    /// The canonical partition key `T#<tenant>#E#<entity>`, after validating
    /// the tenant.
    pub fn eavt_pk(&self, tenant_id: &str, entity_id: &str) -> (r: Result<String, DomainError>)
        ensures
            r is Ok <==> tenant_ok(self.allowed_system_ops, tenant_id@),
            r is Ok ==> r->Ok_0@ == eavt_pk_spec(tenant_id@, entity_id@),
            r is Err ==> r->Err_0.code == ErrorCode::Auth403,
    {
        match self.validate_tenant(tenant_id) {
            Err(e) => Err(e),
            Ok(()) => {
                let mut k = String::from_str("T#");
                k.append(tenant_id);
                k.append("#E#");
                k.append(entity_id);
                Ok(k)
            },
        }
    }

    /// Checks that the entity type is registered; refused with `EAV_004`
    /// otherwise.
    pub fn ensure_schema(&self, entity_type: &str, registry: &CodeRegistry) -> (r: Result<(), DomainError>)
        ensures
            r is Ok <==> model_index(registry.models@, entity_type@, 0) is Some,
            r is Err ==> r->Err_0.code == ErrorCode::Eav004 && r->Err_0.detail@ == "entity_type '"@
                + entity_type@ + "' no registrado en CodeRegistry"@,
    {
        if registry.get_model(entity_type).is_none() {
            let mut d = String::from_str("entity_type '");
            d.append(entity_type);
            d.append("' no registrado en CodeRegistry");
            return Err(DomainError::new(ErrorCode::Eav004, d));
        }
        Ok(())
    }
}

impl Default for TenantGuard {
    fn default() -> (r: TenantGuard)
        ensures
            !r.allowed_system_ops,
    {
        TenantGuard::new()
    }
}

/// A partition key names its tenant: for tenant ids without `#`, equal keys
/// come from the same tenant, so no key built for one tenant can reach
/// another tenant's items.
pub proof fn lemma_pk_isolates_tenants(t1: Seq<char>, e1: Seq<char>, t2: Seq<char>, e2: Seq<char>)
    requires
        !t1.contains('#'),
        !t2.contains('#'),
        eavt_pk_spec(t1, e1) == eavt_pk_spec(t2, e2),
    ensures
        t1 == t2,
{
    reveal_strlit("T#");
    reveal_strlit("#E#");
    assert("T#"@ =~= seq!['T', '#']);
    assert("#E#"@ =~= seq!['#', 'E', '#']);
    let k1 = eavt_pk_spec(t1, e1);
    assert(k1[t1.len() + 2int] == '#');
    assert(eavt_pk_spec(t2, e2)[t2.len() + 2int] == '#');
    assert forall|i: int| 0 <= i < t1.len() implies k1[i + 2] == t1[i] by {}
    if t1.len() < t2.len() {
        assert(k1[t1.len() + 2int] == t2[t1.len() as int]);
        assert(t2.contains('#'));
    } else if t2.len() < t1.len() {
        assert(eavt_pk_spec(t2, e2)[t2.len() + 2int] == t1[t2.len() as int]);
        assert(t1.contains('#'));
    } else {
        assert forall|i: int| 0 <= i < t1.len() implies t1[i] == t2[i] by {
            assert(k1[i + 2] == t1[i]);
            assert(eavt_pk_spec(t2, e2)[i + 2] == t2[i]);
        }
        assert(t1 =~= t2);
    }
}

/// In user context the system tenant never gets a key, whatever the entity.
pub proof fn lemma_user_context_refuses_system(entity_id: Seq<char>)
    ensures
        !tenant_ok(false, system_tenant()),
{
}

} // verus!
