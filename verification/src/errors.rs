//! The library's domain error: a catalogued code, a detail for people, the
//! pipeline stage that raised it, and an optional quota context.
use vstd::prelude::*;

verus! {

/// The catalogued error codes that the library raises.
#[derive(Debug, Clone, Copy, PartialEq, Eq, Structural)]
pub enum ErrorCode {
    Janus400,
    Janus500,
    Auth401,
    Auth403,
    Eav001,
    Eav004,
    Quota001,
    Infra001,
    Infra004,
    Infra005,
    Aeg002,
    Aeg003,
    Aeg004,
}

/// The canonical text of a code, as the error catalogue keys it.
pub open spec fn canonical_code_spec(code: ErrorCode) -> Seq<char> {
    match code {
        ErrorCode::Janus400 => "JANUS_400"@,
        ErrorCode::Janus500 => "JANUS_500"@,
        ErrorCode::Auth401 => "AUTH_401"@,
        ErrorCode::Auth403 => "AUTH_403"@,
        ErrorCode::Eav001 => "EAV_001"@,
        ErrorCode::Eav004 => "EAV_004"@,
        ErrorCode::Quota001 => "QUOTA_001"@,
        ErrorCode::Infra001 => "INFRA_001"@,
        ErrorCode::Infra004 => "INFRA_004"@,
        ErrorCode::Infra005 => "INFRA_005"@,
        ErrorCode::Aeg002 => "AEG_002"@,
        ErrorCode::Aeg003 => "AEG_003"@,
        ErrorCode::Aeg004 => "AEG_004"@,
    }
}

impl ErrorCode {
    /// The canonical text of the code (`JANUS_400`, `QUOTA_001`, ...).
    pub fn canonical_code(&self) -> (r: &'static str)
        ensures
            r@ == canonical_code_spec(*self),
    {
        match self {
            ErrorCode::Janus400 => "JANUS_400",
            ErrorCode::Janus500 => "JANUS_500",
            ErrorCode::Auth401 => "AUTH_401",
            ErrorCode::Auth403 => "AUTH_403",
            ErrorCode::Eav001 => "EAV_001",
            ErrorCode::Eav004 => "EAV_004",
            ErrorCode::Quota001 => "QUOTA_001",
            ErrorCode::Infra001 => "INFRA_001",
            ErrorCode::Infra004 => "INFRA_004",
            ErrorCode::Infra005 => "INFRA_005",
            ErrorCode::Aeg002 => "AEG_002",
            ErrorCode::Aeg003 => "AEG_003",
            ErrorCode::Aeg004 => "AEG_004",
        }
    }
}

/// The figures that a quota rejection carries to the client.
#[derive(Debug, Clone, PartialEq, Eq)]
pub struct QuotaContext {
    pub limit: i64,
    pub current_usage: i64,
    pub resource_domain: String,
    pub period_key: Option<String>,
}

/// A domain error.
#[derive(Debug, Clone, PartialEq, Eq)]
pub struct DomainError {
    pub code: ErrorCode,
    pub detail: String,
    pub stage: String,
    pub retryable: bool,
    pub context: Option<QuotaContext>,
}

impl DomainError {
    /// An error with `code` and `detail`, raised at no particular stage, not
    /// retryable, without context.
    pub fn new(code: ErrorCode, detail: String) -> (r: DomainError)
        ensures
            r.code == code,
            r.detail@ == detail@,
            r.stage@ == Seq::<char>::empty(),
            !r.retryable,
            r.context is None,
    {
        DomainError { code, detail, stage: String::new(), retryable: false, context: None }
    }

    /// The same error, attributed to `stage`.
    pub fn with_stage(self, stage: &str) -> (r: DomainError)
        ensures
            r.code == self.code,
            r.detail == self.detail,
            r.stage@ == stage@,
            r.retryable == self.retryable,
            r.context == self.context,
    {
        DomainError { stage: stage.to_owned(), ..self }
    }

    /// The same error, carrying `context`.
    pub fn with_context(self, context: QuotaContext) -> (r: DomainError)
        ensures
            r.code == self.code,
            r.detail == self.detail,
            r.stage == self.stage,
            r.retryable == self.retryable,
            r.context == Some(context),
    {
        DomainError { context: Some(context), ..self }
    }
}

/// The status codes with which a call fails.
#[derive(Debug, Clone, Copy, PartialEq, Eq, Structural)]
pub enum RpcCode {
    Success,
    InvalidArgument,
    NotFound,
    AlreadyExists,
    ResourceExhausted,
    FailedPrecondition,
    Aborted,
    OutOfRange,
    Unimplemented,
    PermissionDenied,
    Unauthenticated,
    DeadlineExceeded,
    Unavailable,
    DataLoss,
    Internal,
}

/// A failed call: its code and its message.
#[derive(Debug)]
pub struct RpcError {
    pub code: RpcCode,
    pub message: String,
}

/// `e` has code `code` and message `message`.
pub open spec fn rpc_error_is(e: RpcError, code: RpcCode, message: Seq<char>) -> bool {
    e.code == code && e.message@ == message
}

} // verus!
