//! What the authentication interceptor decides before it verifies a
//! session token: where the token comes from, and how much clock skew the
//! verification tolerates.
use vstd::prelude::*;
use vstd::string::StringExecFns;
use crate::errors::{rpc_error_is, RpcCode, RpcError};
use crate::text::{opt_text, chars_of, matches_at, matches_at_exec, same_text, string_from_chars, trim, trim_vec};

verus! {

/// The identity that the authentication interceptor attached to a request.
#[derive(Debug)]
pub struct AuthenticatedSession {
    pub tenant_id: String,
    pub user_id: String,
    pub jti: String,
}

/// `s` without a leading `Bearer ` or `bearer `, if it has one.
pub open spec fn strip_bearer(s: Seq<char>) -> Seq<char> {
    if matches_at(s, "Bearer "@, 0) || matches_at(s, "bearer "@, 0) {
        s.skip(7)
    } else {
        s
    }
}

/// The token of a request: the `sid` header, trimmed, when present;
/// otherwise the `authorization` header, trimmed, without a leading bearer
/// word, and trimmed again; neither refuses the request.
pub open spec fn token_of(sid: Option<Seq<char>>, authorization: Option<Seq<char>>) -> Option<Seq<char>> {
    match sid {
        Some(s) => Some(trim(s)),
        None => match authorization {
            Some(a) => Some(trim(strip_bearer(trim(a)))),
            None => None,
        },
    }
}

/// The message of a request without credentials.
pub open spec fn missing_credentials_message() -> Seq<char> {
    "Missing authorization or sid header [Fail-Closed]"@
}

/// Reads the session token of a request from its `sid` and `authorization`
/// headers (each given when present and readable as text).
pub fn extract_token(sid: Option<&str>, authorization: Option<&str>) -> (r: Result<String, RpcError>)
    ensures
        match token_of(opt_text(sid), opt_text(authorization)) {
            Some(t) => r matches Ok(tok) && tok@ == t,
            None => r matches Err(e) && rpc_error_is(e, RpcCode::Unauthenticated, missing_credentials_message()),
        },
{
    match sid {
        Some(s) => {
            let c = chars_of(s);
            let t = trim_vec(&c, 0, c.len());
            proof {
                assert(c@.subrange(0, c@.len() as int) =~= c@);
            }
            Ok(string_from_chars(&t))
        },
        None => match authorization {
            Some(a) => {
                let c = chars_of(a);
                let t = trim_vec(&c, 0, c.len());
                proof {
                    assert(c@.subrange(0, c@.len() as int) =~= c@);
                }
                let upper = chars_of("Bearer ");
                let lower = chars_of("bearer ");
                let from: usize = if matches_at_exec(&t, &upper, 0) || matches_at_exec(&t, &lower, 0) {
                    proof {
                        reveal_strlit("Bearer ");
                        reveal_strlit("bearer ");
                    }
                    7
                } else {
                    0
                };
                let stripped = trim_vec(&t, from, t.len());
                proof {
                    assert(t@.subrange(from as int, t@.len() as int) =~= strip_bearer(t@));
                }
                Ok(string_from_chars(&stripped))
            },
            None => Err(
                RpcError {
                    code: RpcCode::Unauthenticated,
                    message: String::from_str("Missing authorization or sid header [Fail-Closed]"),
                },
            ),
        },
    }
}

/// The clock skew, in seconds, that token verification tolerates: a day in
/// the local and development environments, five minutes elsewhere.
pub open spec fn skew_tolerance_spec(environment: Option<Seq<char>>) -> i64 {
    match environment {
        Some(e) => if e == "local"@ || e == "development"@ {
            86_400
        } else {
            300
        },
        None => 300,
    }
}

/// The clock skew that token verification tolerates in `environment`.
pub fn skew_tolerance(environment: Option<&str>) -> (r: i64)
    ensures
        r == skew_tolerance_spec(opt_text(environment)),
{
    match environment {
        Some(e) => if same_text(e, "local") || same_text(e, "development") {
            86_400
        } else {
            300
        },
        None => 300,
    }
}

} // verus!
