//! Domain-fault dispatch: the severity that a catalogue entry gives, whether
//! it is escalated, and the fault record persisted for it.
use vstd::prelude::*;
use vstd::string::StringExecFns;
use crate::errors::{canonical_code_spec, DomainError};
use crate::text::{chars_of, lower_seq, lower_vec};

verus! {

/// Severity of a domain fault.
#[derive(Debug, Clone, Copy, PartialEq, Eq, Structural)]
pub enum FaultSeverity {
    Info,
    Warning,
    Error,
    Fatal,
}

/// The severity named by a catalogue string: `info`, `error`, `fatal` in any
/// case; anything else is a warning.
pub open spec fn severity_of(s: Seq<char>) -> FaultSeverity {
    let l = lower_seq(s);
    if l == seq!['i', 'n', 'f', 'o'] {
        FaultSeverity::Info
    } else if l == seq!['e', 'r', 'r', 'o', 'r'] {
        FaultSeverity::Error
    } else if l == seq!['f', 'a', 't', 'a', 'l'] {
        FaultSeverity::Fatal
    } else {
        FaultSeverity::Warning
    }
}

/// Whether faults of this severity go to the fault bus: all but `Info`.
pub open spec fn notifies(s: FaultSeverity) -> bool {
    !(s is Info)
}

impl FaultSeverity {
    /// Parses the catalogue's severity string; unknown values are warnings.
    pub fn from_catalog_str(s: &str) -> (r: FaultSeverity)
        ensures
            r == severity_of(s@),
    {
        let c = chars_of(s);
        let l = lower_vec(&c);
        let info = vec!['i', 'n', 'f', 'o'];
        let error = vec!['e', 'r', 'r', 'o', 'r'];
        let fatal = vec!['f', 'a', 't', 'a', 'l'];
        assert(info@ =~= seq!['i', 'n', 'f', 'o']);
        assert(error@ =~= seq!['e', 'r', 'r', 'o', 'r']);
        assert(fatal@ =~= seq!['f', 'a', 't', 'a', 'l']);
        if crate::text::eq_chars(&l, &info) {
            FaultSeverity::Info
        } else if crate::text::eq_chars(&l, &error) {
            FaultSeverity::Error
        } else if crate::text::eq_chars(&l, &fatal) {
            FaultSeverity::Fatal
        } else {
            FaultSeverity::Warning
        }
    }

    /// Whether a fault of this severity is escalated to the fault bus.
    pub fn requires_notification(&self) -> (r: bool)
        ensures
            r == notifies(*self),
    {
        match self {
            FaultSeverity::Info => false,
            _ => true,
        }
    }

    /// The severity label of the persisted record; `Info` is never persisted
    /// and falls back to `WARNING`.
    pub fn record_label(&self) -> (r: &'static str)
        ensures
            r@ == match *self {
                FaultSeverity::Error => "ERROR"@,
                FaultSeverity::Fatal => "FATAL"@,
                _ => "WARNING"@,
            },
    {
        match self {
            FaultSeverity::Warning => "WARNING",
            FaultSeverity::Error => "ERROR",
            FaultSeverity::Fatal => "FATAL",
            FaultSeverity::Info => "WARNING",
        }
    }
}

/// The severity of a fault: the catalogue entry's when there is one,
/// otherwise a warning.
pub fn fault_severity(catalog_severity: Option<&str>) -> (r: FaultSeverity)
    ensures
        r == match catalog_severity {
            Some(s) => severity_of(s@),
            None => FaultSeverity::Warning,
        },
{
    match catalog_severity {
        Some(s) => FaultSeverity::from_catalog_str(s),
        None => FaultSeverity::Warning,
    }
}

/// The fields of the forensic error DTO that the fault record reads; each
/// is absent when the DTO does not carry it with the expected type.
#[derive(Debug, Clone)]
pub struct ErrorDtoFields {
    pub trace_id: Option<String>,
    pub tenant_id: Option<String>,
    pub user_id: Option<String>,
    pub code: Option<String>,
    pub stage: Option<String>,
    pub component: Option<String>,
    pub retryable: Option<bool>,
    pub timestamp: Option<i64>,
    /// The DTO's `context`, as JSON text; absent when the DTO has none.
    pub context: Option<String>,
}

/// The record of a domain fault persisted on the OLAP channel.
#[derive(Debug, Clone, PartialEq, Eq)]
pub struct FaultRecord {
    pub trace_id: String,
    pub tenant_id: String,
    pub user_id: Option<String>,
    pub error_code: String,
    pub severity: String,
    pub stage: String,
    pub component: String,
    pub entity_type: Option<String>,
    pub retryable: bool,
    pub occurred_at: i64,
    /// The DTO's `context`, as JSON text; `None` stands for JSON `null`.
    pub context: Option<String>,
}

/// The view of an optional string, with a default.
pub open spec fn or_default(o: Option<String>, d: Seq<char>) -> Seq<char> {
    match o {
        Some(s) => s@,
        None => d,
    }
}

fn string_or(o: &Option<String>, d: &str) -> (r: String)
    ensures
        r@ == or_default(*o, d@),
{
    match o {
        Some(s) => s.clone(),
        None => d.to_owned(),
    }
}

/// The label of a severity in the persisted record; `Info` is never
/// persisted and falls back to `WARNING`.
pub open spec fn severity_label(severity: FaultSeverity) -> Seq<char> {
    match severity {
        FaultSeverity::Error => "ERROR"@,
        FaultSeverity::Fatal => "FATAL"@,
        _ => "WARNING"@,
    }
}

/// `r` is the fault record of `error` with its DTO fields `dto`, severity
/// `severity` and entity type `entity_type`, written at `now_ms`.
pub open spec fn fault_record_is(
    r: FaultRecord,
    error: DomainError,
    dto: ErrorDtoFields,
    severity: FaultSeverity,
    entity_type: Option<String>,
    now_ms: i64,
) -> bool {
    &&& r.trace_id@ == or_default(dto.trace_id, Seq::empty())
    &&& r.tenant_id@ == or_default(dto.tenant_id, Seq::empty())
    &&& r.user_id == dto.user_id
    &&& r.error_code@ == or_default(dto.code, canonical_code_spec(error.code))
    &&& r.severity@ == severity_label(severity)
    &&& r.stage@ == or_default(dto.stage, error.stage@)
    &&& r.component@ == or_default(dto.component, "metri-engine"@)
    &&& r.entity_type == entity_type
    &&& r.retryable == match dto.retryable {
        Some(b) => b,
        None => error.retryable,
    }
    &&& r.occurred_at == match dto.timestamp {
        Some(t) => t,
        None => now_ms,
    }
    &&& r.context == dto.context
}

/// The fault record of an escalated fault: the DTO's fields where present;
/// otherwise empty trace and tenant, the error's own code, stage and
/// retryability, component `metri-engine`, and `now_ms` as the time.
pub fn build_fault_record(
    error: &DomainError,
    dto: &ErrorDtoFields,
    severity: FaultSeverity,
    entity_type: Option<String>,
    now_ms: i64,
) -> (r: FaultRecord)
    ensures
        fault_record_is(r, *error, *dto, severity, entity_type, now_ms),
{
    proof {
        reveal_strlit("");
        assert(""@ =~= Seq::<char>::empty());
    }
    FaultRecord {
        trace_id: string_or(&dto.trace_id, ""),
        tenant_id: string_or(&dto.tenant_id, ""),
        user_id: dto.user_id.clone(),
        error_code: string_or(&dto.code, error.code.canonical_code()),
        severity: severity.record_label().to_owned(),
        stage: string_or(&dto.stage, error.stage.as_str()),
        component: string_or(&dto.component, "metri-engine"),
        entity_type,
        retryable: match dto.retryable {
            Some(b) => b,
            None => error.retryable,
        },
        occurred_at: match dto.timestamp {
            Some(t) => t,
            None => now_ms,
        },
        context: dto.context.clone(),
    }
}

/// The write that persists an escalated fault on the OLAP channel: a bulk
/// create of `domain_fault` rows for the DTO's tenant, under the DTO's user
/// (`system` when it names none), holding the one fault record.
#[derive(Debug, Clone, PartialEq, Eq)]
pub struct FaultWrite {
    pub tenant_id: String,
    pub user_id: String,
    pub entity_type: String,
    pub operation: String,
    pub data: Vec<FaultRecord>,
}

/// What the fault pipeline does with a fault.
#[derive(Debug, Clone, PartialEq, Eq)]
pub enum FaultAction {
    /// Informational: only logged.
    LogOnly,
    /// Escalated: the DTO goes to the fault bus with this severity, then this
    /// write goes to the OLAP channel.
    NotifyAndPersist { severity: FaultSeverity, write: FaultWrite },
}

/// The severity that the catalogue's entry gives a fault, a warning when
/// there is none.
pub open spec fn planned_severity(catalog_severity: Option<&str>) -> FaultSeverity {
    match catalog_severity {
        Some(s) => severity_of(s@),
        None => FaultSeverity::Warning,
    }
}

/// `w` persists the fault of `error` with DTO fields `dto`: a `BULK_CREATE`
/// of one `domain_fault` record for the DTO's tenant and user.
pub open spec fn fault_write_is(
    w: FaultWrite,
    error: DomainError,
    dto: ErrorDtoFields,
    severity: FaultSeverity,
    entity_type: Option<String>,
    now_ms: i64,
) -> bool {
    &&& w.tenant_id@ == or_default(dto.tenant_id, Seq::empty())
    &&& w.user_id@ == or_default(dto.user_id, "system"@)
    &&& w.entity_type@ == "domain_fault"@
    &&& w.operation@ == "BULK_CREATE"@
    &&& w.data@.len() == 1
    &&& fault_record_is(w.data@[0], error, dto, severity, entity_type, now_ms)
}

/// Decides what to do with a fault: informational faults are only logged;
/// the others are notified with their severity and persisted.
pub fn plan_fault(
    error: &DomainError,
    dto: &ErrorDtoFields,
    catalog_severity: Option<&str>,
    entity_type: Option<String>,
    now_ms: i64,
) -> (r: FaultAction)
    ensures
        (r is LogOnly <==> !notifies(planned_severity(catalog_severity))),
        r matches FaultAction::NotifyAndPersist { severity, write } ==> severity == planned_severity(
            catalog_severity,
        ) && fault_write_is(write, *error, *dto, severity, entity_type, now_ms),
{
    let sev = fault_severity(catalog_severity);
    if !sev.requires_notification() {
        return FaultAction::LogOnly;
    }
    let record = build_fault_record(error, dto, sev, entity_type, now_ms);
    let mut data: Vec<FaultRecord> = Vec::new();
    data.push(record);
    let write = FaultWrite {
        tenant_id: string_or(&dto.tenant_id, ""),
        user_id: string_or(&dto.user_id, "system"),
        entity_type: String::from_str("domain_fault"),
        operation: String::from_str("BULK_CREATE"),
        data,
    };
    proof {
        reveal_strlit("");
        assert(""@ =~= Seq::<char>::empty());
    }
    FaultAction::NotifyAndPersist { severity: sev, write }
}

/// The write that follows the notification of an escalated fault: it is
/// made whatever the notification answered, a failed notification included;
/// an informational fault writes nothing.
pub fn write_after_notify<E>(plan: FaultAction, notified: Result<(), E>) -> (r: Option<FaultWrite>)
    ensures
        r == match plan {
            FaultAction::LogOnly => None,
            FaultAction::NotifyAndPersist { write, .. } => Some(write),
        },
{
    match plan {
        FaultAction::LogOnly => None,
        FaultAction::NotifyAndPersist { write, .. } => Some(write),
    }
}

/// The detail type of a fault's event on the fault bus:
/// `DOMAIN_FAULT_` and the severity's name in capitals.
pub fn fault_detail_type(severity: FaultSeverity) -> (r: &'static str)
    ensures
        r@ == "DOMAIN_FAULT_"@ + match severity {
            FaultSeverity::Info => "INFO"@,
            FaultSeverity::Warning => "WARNING"@,
            FaultSeverity::Error => "ERROR"@,
            FaultSeverity::Fatal => "FATAL"@,
        },
{
    match severity {
        FaultSeverity::Info => {
            proof {
                reveal_strlit("DOMAIN_FAULT_INFO");
                reveal_strlit("DOMAIN_FAULT_");
                reveal_strlit("INFO");
            }
            "DOMAIN_FAULT_INFO"
        },
        FaultSeverity::Warning => {
            proof {
                reveal_strlit("DOMAIN_FAULT_WARNING");
                reveal_strlit("DOMAIN_FAULT_");
                reveal_strlit("WARNING");
            }
            "DOMAIN_FAULT_WARNING"
        },
        FaultSeverity::Error => {
            proof {
                reveal_strlit("DOMAIN_FAULT_ERROR");
                reveal_strlit("DOMAIN_FAULT_");
                reveal_strlit("ERROR");
            }
            "DOMAIN_FAULT_ERROR"
        },
        FaultSeverity::Fatal => {
            proof {
                reveal_strlit("DOMAIN_FAULT_FATAL");
                reveal_strlit("DOMAIN_FAULT_");
                reveal_strlit("FATAL");
            }
            "DOMAIN_FAULT_FATAL"
        },
    }
}

/// A fault notifier that drops every fault, for tests and local runs.
#[derive(Debug)]
pub struct NoopFaultNotifier {}

impl NoopFaultNotifier {
    /// The silent notifier.
    pub fn new() -> (r: NoopFaultNotifier) {
        NoopFaultNotifier {  }
    }

    /// Drops the fault and reports success.
    pub fn notify<D>(&self, error_dto: &D, severity: &FaultSeverity) -> (r: Result<(), DomainError>)
        ensures
            r is Ok,
    {
        Ok(())
    }
}

} // verus!
