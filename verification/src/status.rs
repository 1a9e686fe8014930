//! The one translation of a domain error into an RPC status: the status
//! code comes from the error catalogue's entry for the error's canonical
//! code, and the message is a JSON object with the error's code, detail,
//! retryability and stage.
use vstd::prelude::*;
use vstd::string::StringExecFns;
use crate::errors::{canonical_code_spec, DomainError, RpcCode, RpcError};
use crate::json::{json_string, json_string_literal};

verus! {

/// The status code named by a catalogue entry; an unknown name is `Internal`.
pub open spec fn status_code_named(s: Seq<char>) -> RpcCode {
    if s == "OK"@ {
        RpcCode::Success
    } else if s == "INVALID_ARGUMENT"@ {
        RpcCode::InvalidArgument
    } else if s == "NOT_FOUND"@ {
        RpcCode::NotFound
    } else if s == "ALREADY_EXISTS"@ {
        RpcCode::AlreadyExists
    } else if s == "RESOURCE_EXHAUSTED"@ {
        RpcCode::ResourceExhausted
    } else if s == "FAILED_PRECONDITION"@ {
        RpcCode::FailedPrecondition
    } else if s == "ABORTED"@ {
        RpcCode::Aborted
    } else if s == "OUT_OF_RANGE"@ {
        RpcCode::OutOfRange
    } else if s == "UNIMPLEMENTED"@ {
        RpcCode::Unimplemented
    } else if s == "PERMISSION_DENIED"@ {
        RpcCode::PermissionDenied
    } else if s == "UNAUTHENTICATED"@ {
        RpcCode::Unauthenticated
    } else if s == "DEADLINE_EXCEEDED"@ {
        RpcCode::DeadlineExceeded
    } else if s == "UNAVAILABLE"@ {
        RpcCode::Unavailable
    } else if s == "DATA_LOSS"@ {
        RpcCode::DataLoss
    } else {
        RpcCode::Internal
    }
}

/// The status code of a catalogue entry's `grpc_status`.
pub fn tonic_code(grpc_status: &str) -> (r: RpcCode)
    ensures
        r == status_code_named(grpc_status@),
{
    if crate::text::same_text(grpc_status, "OK") {
        RpcCode::Success
    } else if crate::text::same_text(grpc_status, "INVALID_ARGUMENT") {
        RpcCode::InvalidArgument
    } else if crate::text::same_text(grpc_status, "NOT_FOUND") {
        RpcCode::NotFound
    } else if crate::text::same_text(grpc_status, "ALREADY_EXISTS") {
        RpcCode::AlreadyExists
    } else if crate::text::same_text(grpc_status, "RESOURCE_EXHAUSTED") {
        RpcCode::ResourceExhausted
    } else if crate::text::same_text(grpc_status, "FAILED_PRECONDITION") {
        RpcCode::FailedPrecondition
    } else if crate::text::same_text(grpc_status, "ABORTED") {
        RpcCode::Aborted
    } else if crate::text::same_text(grpc_status, "OUT_OF_RANGE") {
        RpcCode::OutOfRange
    } else if crate::text::same_text(grpc_status, "UNIMPLEMENTED") {
        RpcCode::Unimplemented
    } else if crate::text::same_text(grpc_status, "PERMISSION_DENIED") {
        RpcCode::PermissionDenied
    } else if crate::text::same_text(grpc_status, "UNAUTHENTICATED") {
        RpcCode::Unauthenticated
    } else if crate::text::same_text(grpc_status, "DEADLINE_EXCEEDED") {
        RpcCode::DeadlineExceeded
    } else if crate::text::same_text(grpc_status, "UNAVAILABLE") {
        RpcCode::Unavailable
    } else if crate::text::same_text(grpc_status, "DATA_LOSS") {
        RpcCode::DataLoss
    } else {
        RpcCode::Internal
    }
}

/// The message of the status of `err`: the JSON object
/// `{"canonical_code":…,"detail":…,"retryable":…,"stage":…}`, keys in order.
pub open spec fn status_payload(err: DomainError) -> Seq<char> {
    "{\"canonical_code\":"@ + json_string(canonical_code_spec(err.code)) + ",\"detail\":"@ + json_string(
        err.detail@,
    ) + ",\"retryable\":"@ + (if err.retryable {
        "true"@
    } else {
        "false"@
    }) + ",\"stage\":"@ + json_string(err.stage@) + "}"@
}

/// The status of a domain error. `catalog_status` is the `grpc_status` of the
/// catalogue's entry for the error's canonical code; without an entry the
/// status is `Internal`.
pub fn status_from_error(err: &DomainError, catalog_status: Option<&str>) -> (r: RpcError)
    ensures
        r.code == match catalog_status {
            Some(s) => status_code_named(s@),
            None => RpcCode::Internal,
        },
        r.message@ == status_payload(*err),
{
    let code = match catalog_status {
        Some(s) => tonic_code(s),
        None => RpcCode::Internal,
    };
    let mut m = String::from_str("{\"canonical_code\":");
    let c = json_string_literal(err.code.canonical_code());
    m.append(c.as_str());
    m.append(",\"detail\":");
    let d = json_string_literal(err.detail.as_str());
    m.append(d.as_str());
    m.append(",\"retryable\":");
    if err.retryable {
        m.append("true");
    } else {
        m.append("false");
    }
    m.append(",\"stage\":");
    let s = json_string_literal(err.stage.as_str());
    m.append(s.as_str());
    m.append("}");
    RpcError { code, message: m }
}

} // verus!
