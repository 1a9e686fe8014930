//! Validation of the grants of a role before it is written.
//!
//! A grant is `domain:action`, where the domain is a name of letters, digits,
//! `_` and `-` (or `*`) and the action is such a name that may also hold `*`.
//! Grants come as a list of strings or objects `{domain, actions}`, as one
//! object, as one string, or as a string holding a JSON list. The action of
//! every grant must be a known action or `*`. The first offending grant is
//! reported; the call fails with `InvalidArgument`.
use vstd::prelude::*;
use crate::errors::{rpc_error_is, RpcCode, RpcError};
use vstd::string::StringExecFns;
use crate::text::{chars_of, joined, same_text};

verus! {

/// The `actions` of a grant object, as read.
#[derive(Debug)]
pub enum GrantActions {
    /// No `actions` field: every action of the domain.
    Missing,
    /// A list; an entry that is not a string is `None`.
    List(Vec<Option<String>>),
    /// A single action.
    One(String),
    /// Neither a list nor a string.
    Invalid,
}

/// A grant object, as read: its `domain` when that is a string, and its actions.
#[derive(Debug)]
pub struct GrantObject {
    pub domain: Option<String>,
    pub actions: GrantActions,
}

/// An entry of a grant list.
#[derive(Debug)]
pub enum GrantItem {
    /// A string, and what it holds when it is the text of a JSON object.
    Text { text: String, as_object: Option<GrantObject> },
    Object(GrantObject),
    /// Anything else.
    Other,
}

/// The grants field of a role, as read.
#[derive(Debug)]
pub enum GrantsValue {
    /// A string; `as_list` is what it holds read as a JSON list (or why it
    /// could not be read), `as_object` what it holds when it is the text of a
    /// JSON object.
    Text { text: String, as_list: Result<Vec<GrantItem>, String>, as_object: Option<GrantObject> },
    List(Vec<GrantItem>),
    Object(GrantObject),
    /// Anything else.
    Other,
}

/// A character of a grant's domain: ASCII letter, digit, `_` or `-`.
pub open spec fn is_domain_char(c: char) -> bool {
    ('a' <= c && c <= 'z') || ('A' <= c && c <= 'Z') || ('0' <= c && c <= '9') || c == '_' || c == '-'
}

/// A character of a grant's action: a domain character or `*`.
pub open spec fn is_action_char(c: char) -> bool {
    is_domain_char(c) || c == '*'
}

/// `s` is not empty and every character satisfies `p`.
pub open spec fn nonempty_all(s: Seq<char>, p: spec_fn(char) -> bool) -> bool {
    s.len() > 0 && forall|i: int| 0 <= i < s.len() ==> p(#[trigger] s[i])
}

/// The grant pattern `^([a-zA-Z0-9_\-]+|\*):[a-zA-Z0-9_\-*]+$`: a domain name
/// or `*`, a colon, an action name.
pub open spec fn grant_format(s: Seq<char>) -> bool {
    exists|k: int|
        0 <= k < s.len() && #[trigger] s[k] == ':' && (nonempty_all(s.take(k), |c: char| is_domain_char(c))
            || s.take(k) == seq!['*']) && nonempty_all(s.skip(k + 1), |c: char| is_action_char(c))
}

/// The grant pattern, as the `regex` crate compiles it.
pub const GRANT_PATTERN: &'static str = "^([a-zA-Z0-9_\\-]+|\\*):[a-zA-Z0-9_\\-*]+$";

/// Compiles `GRANT_PATTERN` with `regex::Regex::new` and calls `is_match`:
/// the result is whether the whole of `s` matches the grant pattern, which
/// `grant_format` states.
#[verifier::external_body]
fn grant_format_matches(s: &str) -> (r: bool)
    ensures
        r == grant_format(s@),
{
    match regex::Regex::new(GRANT_PATTERN) {
        Ok(re) => re.is_match(s),
        Err(_) => false,
    }
}

/// The actions that a grant may name besides `*`.
pub open spec fn is_known_action(a: Seq<char>) -> bool {
    a == "VIEW"@ || a == "CREATE"@ || a == "UPDATE"@ || a == "DELETE"@ || a == "UPSERT"@
        || a == "EXECUTE"@ || a == "EXPORT"@ || a == "APPROVE"@ || a == "REJECT"@ || a == "DELEGATE"@
        || a == "REVOKE"@
}

/// The message of a grant that does not follow the pattern.
pub open spec fn bad_format_message(grant: Seq<char>) -> Seq<char> {
    "Invalid grant format '"@ + grant
        + "'. Grants must match pattern '^[a-zA-Z0-9_\\-]+:[a-zA-Z0-9_\\-*]+$'."@
}

/// The message of a grant with an unknown action.
pub open spec fn unknown_action_message(action: Seq<char>, grant: Seq<char>) -> Seq<char> {
    "Invalid grant action '"@ + action + "' in '"@ + grant
        + "'. Known actions: VIEW, CREATE, UPDATE, DELETE, UPSERT, EXECUTE, EXPORT, APPROVE, REJECT, DELEGATE, REVOKE."@
}

/// What is wrong with the grant `domain:action`, if anything.
pub open spec fn pair_fault(domain: Seq<char>, action: Seq<char>) -> Option<Seq<char>> {
    let pair = domain + ":"@ + action;
    if !grant_format(pair) {
        Some(bad_format_message(pair))
    } else if action != "*"@ && !is_known_action(action) {
        Some(unknown_action_message(action, pair))
    } else {
        None
    }
}

/// The first fault among the actions of a list, from the left.
pub open spec fn actions_fault(domain: Seq<char>, actions: Seq<Option<String>>) -> Option<Seq<char>>
    decreases actions.len(),
{
    if actions.len() == 0 {
        None
    } else {
        match actions[0] {
            None => Some("Grant action must be a string"@),
            Some(a) => match pair_fault(domain, a@) {
                Some(m) => Some(m),
                None => actions_fault(domain, actions.drop_first()),
            },
        }
    }
}

/// What is wrong with a grant object, if anything.
pub open spec fn object_fault(o: GrantObject) -> Option<Seq<char>> {
    match o.domain {
        None => Some("Grant object missing 'domain' field"@),
        Some(d) => match o.actions {
            GrantActions::Missing => pair_fault(d@, "*"@),
            GrantActions::List(acts) => actions_fault(d@, acts@),
            GrantActions::One(a) => pair_fault(d@, a@),
            GrantActions::Invalid => Some("Grant 'actions' field must be an array or string"@),
        },
    }
}

/// What is wrong with a string grant: the text of an object is read as the
/// object; any other text must follow the grant pattern.
pub open spec fn text_fault(text: Seq<char>, as_object: Option<GrantObject>) -> Option<Seq<char>> {
    if text.len() > 0 && text[0] == '{' && as_object is Some {
        object_fault(as_object->0)
    } else if grant_format(text) {
        None
    } else {
        Some(bad_format_message(text))
    }
}

/// What is wrong with one entry of a grant list, if anything.
pub open spec fn item_fault(item: GrantItem) -> Option<Seq<char>> {
    match item {
        GrantItem::Text { text, as_object } => text_fault(text@, as_object),
        GrantItem::Object(o) => object_fault(o),
        GrantItem::Other => Some("Grant item must be a string or object"@),
    }
}

/// The first fault of a grant list, from the left.
pub open spec fn items_fault(items: Seq<GrantItem>) -> Option<Seq<char>>
    decreases items.len(),
{
    if items.len() == 0 {
        None
    } else {
        match item_fault(items[0]) {
            Some(m) => Some(m),
            None => items_fault(items.drop_first()),
        }
    }
}

/// The first fault of a grants field, if any: a string that starts with `[`
/// is read as a list; any other string is a list of that one grant.
pub open spec fn grants_fault(g: GrantsValue) -> Option<Seq<char>> {
    match g {
        GrantsValue::Text { text, as_list, as_object } => if text@.len() > 0 && text@[0] == '[' {
            match as_list {
                Err(e) => Some("Failed to parse grants JSON string: "@ + e@),
                Ok(items) => items_fault(items@),
            }
        } else {
            text_fault(text@, as_object)
        },
        GrantsValue::List(items) => items_fault(items@),
        GrantsValue::Object(o) => object_fault(o),
        GrantsValue::Other => Some("Grants field must be an array, string, or object"@),
    }
}

fn invalid(message: String) -> (e: RpcError)
    ensures
        rpc_error_is(e, RpcCode::InvalidArgument, message@),
{
    RpcError { code: RpcCode::InvalidArgument, message }
}

fn is_known_action_exec(a: &str) -> (r: bool)
    ensures
        r == is_known_action(a@),
{
    same_text(a, "VIEW") || same_text(a, "CREATE") || same_text(a, "UPDATE") || same_text(a, "DELETE")
        || same_text(a, "UPSERT") || same_text(a, "EXECUTE") || same_text(a, "EXPORT") || same_text(
        a,
        "APPROVE",
    ) || same_text(a, "REJECT") || same_text(a, "DELEGATE") || same_text(a, "REVOKE")
}

fn bad_format(grant: &str) -> (e: RpcError)
    ensures
        rpc_error_is(e, RpcCode::InvalidArgument, bad_format_message(grant@)),
{
    let mut m = joined("Invalid grant format '", grant);
    m.append("'. Grants must match pattern '^[a-zA-Z0-9_\\-]+:[a-zA-Z0-9_\\-*]+$'.");
    invalid(m)
}

/// Checks the grant `domain:action`.
fn validate_pair(domain: &str, action: &str) -> (r: Result<(), RpcError>)
    ensures
        match pair_fault(domain@, action@) {
            None => r is Ok,
            Some(m) => r matches Err(e) && rpc_error_is(e, RpcCode::InvalidArgument, m),
        },
{
    let mut pair = joined(domain, ":");
    pair.append(action);
    if !grant_format_matches(pair.as_str()) {
        return Err(bad_format(pair.as_str()));
    }
    if !same_text(action, "*") && !is_known_action_exec(action) {
        let mut m = joined("Invalid grant action '", action);
        m.append("' in '");
        m.append(pair.as_str());
        m.append(
            "'. Known actions: VIEW, CREATE, UPDATE, DELETE, UPSERT, EXECUTE, EXPORT, APPROVE, REJECT, DELEGATE, REVOKE.",
        );
        return Err(invalid(m));
    }
    Ok(())
}

/// Checks a grant object.
fn validate_object(o: &GrantObject) -> (r: Result<(), RpcError>)
    ensures
        match object_fault(*o) {
            None => r is Ok,
            Some(m) => r matches Err(e) && rpc_error_is(e, RpcCode::InvalidArgument, m),
        },
{
    let domain = match &o.domain {
        None => return Err(invalid(String::from_str("Grant object missing 'domain' field"))),
        Some(d) => d,
    };
    match &o.actions {
        GrantActions::Missing => validate_pair(domain.as_str(), "*"),
        GrantActions::One(a) => validate_pair(domain.as_str(), a.as_str()),
        GrantActions::Invalid => Err(invalid(String::from_str("Grant 'actions' field must be an array or string"))),
        GrantActions::List(acts) => {
            let mut i: usize = 0;
            assert(acts@.skip(0) =~= acts@);
            while i < acts.len()
                invariant
                    i <= acts@.len(),
                    object_fault(*o) == actions_fault(domain@, acts@),
                    actions_fault(domain@, acts@) == actions_fault(domain@, acts@.skip(i as int)),
                decreases acts@.len() - i,
            {
                proof {
                    assert(acts@.skip(i as int).drop_first() =~= acts@.skip(i + 1));
                    assert(acts@.skip(i as int)[0] == acts@[i as int]);
                }
                match &acts[i] {
                    None => return Err(invalid(String::from_str("Grant action must be a string"))),
                    Some(a) => {
                        validate_pair(domain.as_str(), a.as_str())?;
                    },
                }
                i = i + 1;
            }
            Ok(())
        },
    }
}

/// Checks a string grant.
fn validate_text(text: &String, as_object: &Option<GrantObject>) -> (r: Result<(), RpcError>)
    ensures
        match text_fault(text@, *as_object) {
            None => r is Ok,
            Some(m) => r matches Err(e) && rpc_error_is(e, RpcCode::InvalidArgument, m),
        },
{
    let cs = chars_of(text.as_str());
    let starts_with_brace = cs.len() > 0 && cs[0] == '{';
    if starts_with_brace {
        if let Some(o) = as_object {
            return validate_object(o);
        }
    }
    if grant_format_matches(text.as_str()) {
        Ok(())
    } else {
        Err(bad_format(text.as_str()))
    }
}

/// Checks the entries of a grant list, from the left.
fn validate_items(items: &Vec<GrantItem>) -> (r: Result<(), RpcError>)
    ensures
        match items_fault(items@) {
            None => r is Ok,
            Some(m) => r matches Err(e) && rpc_error_is(e, RpcCode::InvalidArgument, m),
        },
{
    let mut i: usize = 0;
    assert(items@.skip(0) =~= items@);
    while i < items.len()
        invariant
            i <= items@.len(),
            items_fault(items@) == items_fault(items@.skip(i as int)),
        decreases items@.len() - i,
    {
        proof {
            assert(items@.skip(i as int).drop_first() =~= items@.skip(i + 1));
            assert(items@.skip(i as int)[0] == items@[i as int]);
        }
        match &items[i] {
            GrantItem::Text { text, as_object } => validate_text(text, as_object)?,
            GrantItem::Object(o) => validate_object(o)?,
            GrantItem::Other => return Err(invalid(String::from_str("Grant item must be a string or object"))),
        }
        i = i + 1;
    }
    Ok(())
}

/// Checks the grants field of a role: `Ok` exactly when no grant has a
/// fault, otherwise `InvalidArgument` with the first fault.
pub fn validate_role_grants(grants: &GrantsValue) -> (r: Result<(), RpcError>)
    ensures
        match grants_fault(*grants) {
            None => r is Ok,
            Some(m) => r matches Err(e) && rpc_error_is(e, RpcCode::InvalidArgument, m),
        },
{
    match grants {
        GrantsValue::Text { text, as_list, as_object } => {
            let cs = chars_of(text.as_str());
            if cs.len() > 0 && cs[0] == '[' {
                match as_list {
                    Err(e) => Err(invalid(joined("Failed to parse grants JSON string: ", e.as_str()))),
                    Ok(items) => validate_items(items),
                }
            } else {
                validate_text(text, as_object)
            }
        },
        GrantsValue::List(items) => validate_items(items),
        GrantsValue::Object(o) => validate_object(o),
        GrantsValue::Other => Err(invalid(String::from_str("Grants field must be an array, string, or object"))),
    }
}

} // verus!
