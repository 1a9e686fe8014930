//! What the RPC handlers decide around their outside work: for which tenant
//! a request runs, which operation an action code names, what a list,
//! explore, bulk or transact request asks of the engine, and what the client
//! is answered once the engine has replied.
use vstd::prelude::*;
use vstd::string::StringExecFns;
use crate::errors::{rpc_error_is, DomainError, ErrorCode, RpcCode, RpcError};
use crate::json::{decimal, decimal_text};
use crate::text::{same_text, string_from_chars};

verus! {

/// A JSON value as the handlers read it. A number is kept as the text that
/// `serde_json` writes for it; an object as its fields, each key once.
#[derive(Debug)]
pub enum JsonValue {
    Null,
    Bool(bool),
    Number(String),
    Str(String),
    Array(Vec<JsonValue>),
    Object(Vec<(String, JsonValue)>),
}

/// The value of the field `key` of an object's fields, if it has one.
pub open spec fn field_of(fields: Seq<(String, JsonValue)>, key: Seq<char>) -> Option<JsonValue>
    decreases fields.len(),
{
    if fields.len() == 0 {
        None
    } else if fields[0].0@ == key {
        Some(fields[0].1)
    } else {
        field_of(fields.skip(1), key)
    }
}

/// The value of the field `key` of `v`, when `v` is an object that has it.
pub open spec fn get_field(v: JsonValue, key: Seq<char>) -> Option<JsonValue> {
    match v {
        JsonValue::Object(fields) => field_of(fields@, key),
        _ => None,
    }
}

/// Position of the field `key` among `fields`.
pub fn find_field(fields: &Vec<(String, JsonValue)>, key: &str) -> (r: Option<usize>)
    ensures
        match r {
            Some(k) => k < fields@.len() && fields@[k as int].0@ == key@ && field_of(fields@, key@) == Some(
                fields@[k as int].1,
            ),
            None => field_of(fields@, key@) is None,
        },
{
    let mut k: usize = 0;
    assert(fields@.skip(0) =~= fields@);
    while k < fields.len()
        invariant
            k <= fields@.len(),
            field_of(fields@, key@) == field_of(fields@.skip(k as int), key@),
        decreases fields@.len() - k,
    {
        if same_text(fields[k].0.as_str(), key) {
            assert(fields@.skip(k as int)[0] == fields@[k as int]);
            return Some(k);
        }
        assert(fields@.skip(k as int).skip(1) =~= fields@.skip(k + 1));
        k = k + 1;
    }
    None
}

// ----------------------------------------------------------------- tenant

/// The tenant a request runs for: a session of the system tenant acts for
/// the tenant the request names (the system tenant when it names none);
/// any other session acts for its own tenant, whatever the request names.
pub open spec fn resolved_tenant(session: Seq<char>, requested: Seq<char>) -> Seq<char> {
    if session == "system"@ {
        if requested.len() == 0 {
            "system"@
        } else {
            requested
        }
    } else {
        session
    }
}

/// Resolves the tenant of a request from the session's tenant and the one
/// the request names.
pub fn resolve_tenant(session_tenant: &str, requested: &str) -> (r: String)
    ensures
        r@ == resolved_tenant(session_tenant@, requested@),
{
    if same_text(session_tenant, "system") {
        if requested.is_empty() {
            String::from_str("system")
        } else {
            String::from_str(requested)
        }
    } else {
        String::from_str(session_tenant)
    }
}

/// The operation that an action code names.
pub open spec fn operation_name(action: i32) -> Seq<char> {
    if action == 1 {
        "CREATE"@
    } else if action == 2 {
        "UPDATE"@
    } else if action == 3 {
        "DELETE"@
    } else {
        "UNKNOWN"@
    }
}

/// The operation that an action code names: 1, 2 and 3 create, update and
/// delete; any other code is unknown.
pub fn operation_of(action: i32) -> (r: String)
    ensures
        r@ == operation_name(action),
{
    if action == 1 {
        String::from_str("CREATE")
    } else if action == 2 {
        String::from_str("UPDATE")
    } else if action == 3 {
        String::from_str("DELETE")
    } else {
        String::from_str("UNKNOWN")
    }
}

/// An operation that writes a new state of a role or a group.
pub open spec fn writes_state(op: Seq<char>) -> bool {
    op == "CREATE"@ || op == "UPDATE"@
}

// ------------------------------------------------------------------- list

/// What a list request asks of the engine.
#[derive(Debug)]
pub struct ListPlan {
    pub tenant_id: String,
    pub entity_type: String,
    /// How many ids the answer holds at most.
    pub limit: usize,
    /// The filters of the value-index scan: the entity type first, then the
    /// request's own.
    pub filters: Vec<(String, String)>,
}

/// The message of a list request without an entity type.
pub open spec fn entity_type_required_message() -> Seq<char> {
    "entity_type es obligatorio"@
}

/// The message of a list request without a positive limit.
pub open spec fn limit_required_message() -> Seq<char> {
    "limit es obligatorio y debe ser > 0 mientras no exista paginacion"@
}

/// The message of a list request whose limit is over the service's maximum.
pub open spec fn limit_over_message(limit: int, max_limit: int) -> Seq<char> {
    "limit "@ + decimal(limit) + " supera el maximo del servicio ("@ + decimal(max_limit) + ")"@
}

/// Plans a list request: the entity type is required and the limit must be
/// positive and at most `max_limit` (there is no paging); the tenant is the
/// resolved one, and the entity type becomes the first filter.
pub fn plan_list(
    session_tenant: &str,
    requested_tenant: &str,
    entity_type: &str,
    limit: i32,
    max_limit: i32,
    filters: Vec<(String, String)>,
) -> (r: Result<ListPlan, RpcError>)
    ensures
        (r is Ok) <==> (entity_type@.len() > 0 && 0 < limit <= max_limit),
        entity_type@.len() == 0 ==> (r matches Err(e) && rpc_error_is(
            e,
            RpcCode::InvalidArgument,
            entity_type_required_message(),
        )),
        entity_type@.len() > 0 && limit <= 0 ==> (r matches Err(e) && rpc_error_is(
            e,
            RpcCode::InvalidArgument,
            limit_required_message(),
        )),
        entity_type@.len() > 0 && 0 < limit && limit > max_limit ==> (r matches Err(e) && rpc_error_is(
            e,
            RpcCode::InvalidArgument,
            limit_over_message(limit as int, max_limit as int),
        )),
        r matches Ok(p) ==> {
            &&& p.tenant_id@ == resolved_tenant(session_tenant@, requested_tenant@)
            &&& p.entity_type@ == entity_type@
            &&& p.limit == limit as usize
            &&& p.filters@.len() == filters@.len() + 1
            &&& p.filters@[0].0@ == "entity_type"@
            &&& p.filters@[0].1@ == entity_type@
            &&& p.filters@.skip(1) == filters@
        },
{
    if entity_type.is_empty() {
        return Err(RpcError { code: RpcCode::InvalidArgument, message: String::from_str("entity_type es obligatorio") });
    }
    if limit <= 0 {
        return Err(
            RpcError {
                code: RpcCode::InvalidArgument,
                message: String::from_str("limit es obligatorio y debe ser > 0 mientras no exista paginacion"),
            },
        );
    }
    if limit > max_limit {
        let mut m = String::from_str("limit ");
        let a = string_from_chars(&decimal_text(limit as i64));
        m.append(a.as_str());
        m.append(" supera el maximo del servicio (");
        let b = string_from_chars(&decimal_text(max_limit as i64));
        m.append(b.as_str());
        m.append(")");
        return Err(RpcError { code: RpcCode::InvalidArgument, message: m });
    }
    let tenant_id = resolve_tenant(session_tenant, requested_tenant);
    let mut all = filters;
    let first = (String::from_str("entity_type"), String::from_str(entity_type));
    all.insert(0, first);
    proof {
        assert(all@.skip(1) =~= filters@);
    }
    Ok(ListPlan { tenant_id, entity_type: String::from_str(entity_type), limit: limit as usize, filters: all })
}

// ---------------------------------------------------------------- explore

/// What an explore request asks of the engine.
#[derive(Debug)]
pub struct ExplorePlan {
    pub tenant_id: String,
    pub entity: String,
    pub attribute: String,
    /// How many distinct values the engine is asked for.
    pub limit: i32,
    /// Whether the entity lives in the analytical store.
    pub olap: bool,
}

/// The limit of an explore request: the one asked for when positive, else 100.
pub open spec fn explore_limit(limit: i32) -> i32 {
    if limit > 0 {
        limit
    } else {
        100
    }
}

/// Plans an explore request: the resolved tenant, the limit (100 when none
/// is given), and the store the entity's model names (`olap`).
pub fn plan_explore(
    session_tenant: &str,
    requested_tenant: &str,
    entity: &str,
    attribute: &str,
    limit: i32,
    olap: bool,
) -> (r: ExplorePlan)
    ensures
        r.tenant_id@ == resolved_tenant(session_tenant@, requested_tenant@),
        r.entity@ == entity@,
        r.attribute@ == attribute@,
        r.limit == explore_limit(limit),
        r.olap == olap,
{
    let tenant_id = resolve_tenant(session_tenant, requested_tenant);
    let l = if limit > 0 {
        limit
    } else {
        100
    };
    ExplorePlan {
        tenant_id,
        entity: String::from_str(entity),
        attribute: String::from_str(attribute),
        limit: l,
        olap,
    }
}

/// The text of a scalar cell: a string itself, a number as written, a
/// boolean as `true` or `false`; other values have none.
pub open spec fn cell_text(v: JsonValue) -> Option<Seq<char>> {
    match v {
        JsonValue::Str(s) => Some(s@),
        JsonValue::Number(n) => Some(n@),
        JsonValue::Bool(b) => Some(
            if b {
                "true"@
            } else {
                "false"@
            },
        ),
        _ => None,
    }
}

/// The text of the field `attribute` of a row, when it has a scalar one.
pub open spec fn row_text(row: JsonValue, attribute: Seq<char>) -> Option<Seq<char>> {
    match get_field(row, attribute) {
        Some(v) => cell_text(v),
        None => None,
    }
}

/// The distinct non-empty texts of the field `attribute` over `rows`, in
/// the order in which they first occur.
pub open spec fn distinct_values(rows: Seq<JsonValue>, attribute: Seq<char>) -> Seq<Seq<char>>
    decreases rows.len(),
{
    if rows.len() == 0 {
        Seq::empty()
    } else {
        let prev = distinct_values(rows.drop_last(), attribute);
        match row_text(rows.last(), attribute) {
            Some(t) => if t.len() > 0 && !prev.contains(t) {
                prev.push(t)
            } else {
                prev
            },
            None => prev,
        }
    }
}

fn text_of_cell(v: &JsonValue) -> (r: Option<String>)
    ensures
        match cell_text(*v) {
            Some(t) => r matches Some(s) && s@ == t,
            None => r is None,
        },
{
    match v {
        JsonValue::Str(s) => Some(String::from_str(s.as_str())),
        JsonValue::Number(n) => Some(String::from_str(n.as_str())),
        JsonValue::Bool(b) => if *b {
            Some(String::from_str("true"))
        } else {
            Some(String::from_str("false"))
        },
        _ => None,
    }
}

fn contains_text(values: &Vec<String>, t: &str) -> (r: bool)
    ensures
        r == values@.map_values(|s: String| s@).contains(t@),
{
    let ghost views = values@.map_values(|s: String| s@);
    let mut k: usize = 0;
    while k < values.len()
        invariant
            k <= values@.len(),
            views == values@.map_values(|s: String| s@),
            forall|j: int| 0 <= j < k ==> views[j] != t@,
        decreases values@.len() - k,
    {
        if same_text(values[k].as_str(), t) {
            assert(views[k as int] == t@);
            return true;
        }
        k = k + 1;
    }
    false
}

/// The values an explore request answers: the distinct non-empty texts of
/// the field `attribute` over the rows the engine returned, first
/// occurrence first; rows without such a field, or where it is not a
/// string, number or boolean, add nothing.
pub fn explore_values(rows: &Vec<JsonValue>, attribute: &str) -> (r: Vec<String>)
    ensures
        r@.map_values(|s: String| s@) == distinct_values(rows@, attribute@),
{
    let mut values: Vec<String> = Vec::new();
    let mut i: usize = 0;
    while i < rows.len()
        invariant
            i <= rows@.len(),
            values@.map_values(|s: String| s@) == distinct_values(rows@.take(i as int), attribute@),
        decreases rows@.len() - i,
    {
        proof {
            assert(rows@.take(i + 1).drop_last() =~= rows@.take(i as int));
            assert(rows@.take(i + 1).last() == rows@[i as int]);
        }
        let t = match &rows[i] {
            JsonValue::Object(fields) => match find_field(fields, attribute) {
                Some(k) => text_of_cell(&fields[k].1),
                None => None,
            },
            _ => None,
        };
        match t {
            Some(s) => {
                if !s.as_str().is_empty() && !contains_text(&values, s.as_str()) {
                    let ghost old_values = values@;
                    values.push(s);
                    proof {
                        assert(values@.map_values(|s: String| s@) =~= old_values.map_values(|s: String| s@).push(
                            values@.last()@,
                        ));
                    }
                }
            },
            None => {},
        }
        i = i + 1;
    }
    proof {
        assert(rows@.take(rows@.len() as int) =~= rows@);
    }
    values
}

/// The value of the field `key` of `v`, when `v` is an object that has it.
pub fn field_ref<'a>(v: &'a JsonValue, key: &str) -> (r: Option<&'a JsonValue>)
    ensures
        match r {
            Some(x) => get_field(*v, key@) == Some(*x),
            None => get_field(*v, key@) is None,
        },
{
    match v {
        JsonValue::Object(fields) => match find_field(fields, key) {
            Some(k) => Some(&fields[k].1),
            None => None,
        },
        _ => None,
    }
}

/// The parent group that a group's mutation names: its
/// `parent_user_group_id` field when present, else its
/// `user_group/parent_user_group_id` field; empty when the field found is
/// not a string, or when neither is there.
pub open spec fn parent_group_named(payload: JsonValue) -> Seq<char> {
    let v = match get_field(payload, "parent_user_group_id"@) {
        Some(x) => Some(x),
        None => get_field(payload, "user_group/parent_user_group_id"@),
    };
    match v {
        Some(JsonValue::Str(s)) => s@,
        _ => ""@,
    }
}

/// Reads the parent group that a group's mutation names, the start of the
/// walk up its hierarchy.
pub fn parent_group_of(payload: &JsonValue) -> (r: String)
    ensures
        r@ == parent_group_named(*payload),
{
    let v = match field_ref(payload, "parent_user_group_id") {
        Some(x) => Some(x),
        None => field_ref(payload, "user_group/parent_user_group_id"),
    };
    match v {
        Some(JsonValue::Str(s)) => String::from_str(s.as_str()),
        _ => String::from_str(""),
    }
}

// --------------------------------------------------------------- transact

/// The identity a request was authenticated as.
#[derive(Debug)]
pub struct Principal {
    pub tenant_id: String,
    pub user_id: String,
}

/// A transaction request, as received.
#[derive(Debug)]
pub struct TransactInput {
    pub tenant_id: String,
    pub entity_type: String,
    pub entity_id: String,
    pub action: i32,
    pub payload: Option<JsonValue>,
    pub suppress_events: bool,
}

/// What a transaction asks of the engine, and which checks come before it.
#[derive(Debug)]
pub struct TransactPlan {
    pub tenant_id: String,
    pub user_id: String,
    pub entity_type: String,
    pub operation: String,
    /// The entity the request names (empty when it names none).
    pub entity_id: String,
    /// The mutation: the payload's `data` field when it has one, else the
    /// payload itself; an empty object when the request carries none.
    pub payload: JsonValue,
    /// The grants of the payload are validated first (a role being written).
    pub check_grants: bool,
    /// The payload is a list: each item is validated as a mutation of its own.
    pub validate_each_item: bool,
    /// A group being written: its parent chain must not come back to it.
    pub check_group_hierarchy: bool,
    /// A create for which the client proposed an id: the id is ignored.
    pub proposed_id_ignored: bool,
    pub suppress_events: bool,
}

/// `out` is the mutation of a request whose payload is `p`.
pub open spec fn payload_unwrapped(p: Option<JsonValue>, out: JsonValue) -> bool {
    match p {
        None => out matches JsonValue::Object(f) && f@.len() == 0,
        Some(v) => match get_field(v, "data"@) {
            Some(d) => out == d,
            None => out == v,
        },
    }
}

fn unwrap_payload(p: Option<JsonValue>) -> (r: JsonValue)
    ensures
        payload_unwrapped(p, r),
{
    match p {
        None => JsonValue::Object(Vec::new()),
        Some(JsonValue::Object(fields)) => match find_field(&fields, "data") {
            Some(k) => {
                let mut f = fields;
                let (_, d) = f.remove(k);
                d
            },
            None => JsonValue::Object(fields),
        },
        Some(other) => other,
    }
}

/// The checks of a transaction, given its entity type, operation and mutation.
pub open spec fn transact_checks(entity_type: Seq<char>, op: Seq<char>, payload: JsonValue) -> (bool, bool, bool) {
    (
        entity_type == "role"@ && writes_state(op) && get_field(payload, "grants"@) is Some,
        payload is Array,
        entity_type == "user_group"@ && writes_state(op),
    )
}

/// Plans a transaction: the resolved tenant, the operation of its action
/// code, its mutation, and the checks it needs.
pub fn plan_transact(principal: &Principal, req: TransactInput) -> (r: TransactPlan)
    ensures
        r.tenant_id@ == resolved_tenant(principal.tenant_id@, req.tenant_id@),
        r.user_id@ == principal.user_id@,
        r.entity_type@ == req.entity_type@,
        r.operation@ == operation_name(req.action),
        r.entity_id@ == req.entity_id@,
        payload_unwrapped(req.payload, r.payload),
        (r.check_grants, r.validate_each_item, r.check_group_hierarchy) == transact_checks(
            req.entity_type@,
            operation_name(req.action),
            r.payload,
        ),
        r.proposed_id_ignored == (req.action == 1 && req.entity_id@.len() > 0),
        r.suppress_events == req.suppress_events,
{
    let tenant_id = resolve_tenant(principal.tenant_id.as_str(), req.tenant_id.as_str());
    let operation = operation_of(req.action);
    let writes = req.action == 1 || req.action == 2;
    proof {
        reveal_strlit("CREATE");
        reveal_strlit("UPDATE");
        reveal_strlit("DELETE");
        reveal_strlit("UNKNOWN");
        assert("DELETE"@[0] != "CREATE"@[0] && "DELETE"@[0] != "UPDATE"@[0]);
        assert("UNKNOWN"@[1] != "CREATE"@[1] && "UNKNOWN"@[1] != "UPDATE"@[1]);
    }
    let payload = unwrap_payload(req.payload);
    let is_role = same_text(req.entity_type.as_str(), "role");
    let is_group = same_text(req.entity_type.as_str(), "user_group");
    let has_grants = match field_ref(&payload, "grants") {
        Some(_) => true,
        None => false,
    };
    let is_array = match &payload {
        JsonValue::Array(_) => true,
        _ => false,
    };
    let proposed = req.action == 1 && !req.entity_id.as_str().is_empty();
    TransactPlan {
        tenant_id,
        user_id: String::from_str(principal.user_id.as_str()),
        entity_type: req.entity_type,
        operation,
        entity_id: req.entity_id,
        payload,
        check_grants: is_role && writes && has_grants,
        validate_each_item: is_array,
        check_group_hierarchy: is_group && writes,
        proposed_id_ignored: proposed,
        suppress_events: req.suppress_events,
    }
}

/// The identity of an entity goes into its mutation: a non-empty id, an
/// operation other than a create, and an object with none of the fields
/// `id`, `entity_id` and `ulid`.
pub open spec fn needs_id(op: Seq<char>, id: Seq<char>, payload: JsonValue) -> bool {
    &&& id.len() > 0
    &&& op != "CREATE"@
    &&& payload is Object
    &&& get_field(payload, "id"@) is None
    &&& get_field(payload, "entity_id"@) is None
    &&& get_field(payload, "ulid"@) is None
}

/// `out` is `payload` with the field `id` set to `id` where `needs_id`
/// asks for it, and `payload` unchanged otherwise.
pub open spec fn id_injected(op: Seq<char>, id: Seq<char>, payload: JsonValue, out: JsonValue) -> bool {
    if needs_id(op, id, payload) {
        &&& payload matches JsonValue::Object(before)
        &&& out matches JsonValue::Object(after)
        &&& after@.len() == before@.len() + 1
        &&& after@.take(before@.len() as int) == before@
        &&& after@.last().0@ == "id"@
        &&& after@.last().1 matches JsonValue::Str(s) && s@ == id
    } else {
        out == payload
    }
}

/// Settles the entity of a transaction: the id the request named, or else
/// `found_in_payload`, the id that the engine's reader finds in the
/// mutation (empty when none); the id then goes into the mutation where
/// `needs_id` asks for it.
pub fn settle_entity_id(plan: TransactPlan, found_in_payload: String) -> (r: TransactPlan)
    ensures
        r.entity_id@ == (if plan.entity_id@.len() > 0 {
            plan.entity_id@
        } else {
            found_in_payload@
        }),
        id_injected(plan.operation@, r.entity_id@, plan.payload, r.payload),
        r.tenant_id == plan.tenant_id,
        r.user_id == plan.user_id,
        r.entity_type == plan.entity_type,
        r.operation == plan.operation,
        r.check_grants == plan.check_grants,
        r.validate_each_item == plan.validate_each_item,
        r.check_group_hierarchy == plan.check_group_hierarchy,
        r.proposed_id_ignored == plan.proposed_id_ignored,
        r.suppress_events == plan.suppress_events,
{
    let entity_id = if plan.entity_id.as_str().is_empty() {
        found_in_payload
    } else {
        plan.entity_id
    };
    let is_create = same_text(plan.operation.as_str(), "CREATE");
    let payload = if !entity_id.as_str().is_empty() && !is_create {
        match plan.payload {
            JsonValue::Object(fields) => {
                let has = find_field(&fields, "id").is_some() || find_field(&fields, "entity_id").is_some()
                    || find_field(&fields, "ulid").is_some();
                if has {
                    JsonValue::Object(fields)
                } else {
                    let mut f = fields;
                    let ghost before = f@;
                    f.push((String::from_str("id"), JsonValue::Str(String::from_str(entity_id.as_str()))));
                    proof {
                        assert(f@.take(before.len() as int) =~= before);
                    }
                    JsonValue::Object(f)
                }
            },
            other => other,
        }
    } else {
        plan.payload
    };
    TransactPlan {
        tenant_id: plan.tenant_id,
        user_id: plan.user_id,
        entity_type: plan.entity_type,
        operation: plan.operation,
        entity_id,
        payload,
        check_grants: plan.check_grants,
        validate_each_item: plan.validate_each_item,
        check_group_hierarchy: plan.check_group_hierarchy,
        proposed_id_ignored: plan.proposed_id_ignored,
        suppress_events: plan.suppress_events,
    }
}

/// The `error` object of an engine reply, as read: its `code` and
/// `description` when they are strings, and its `context`.
#[derive(Debug)]
pub struct ErrorFields {
    pub code: Option<String>,
    pub description: Option<String>,
    pub context: Option<JsonValue>,
}

/// What the engine replied to a write, as read.
#[derive(Debug)]
pub struct ExecOutcome {
    /// The reply's `status` is the string `error`.
    pub is_error: bool,
    /// Its `error` object, when it has one.
    pub error: Option<ErrorFields>,
    /// Its `entity_id`, when that is a string.
    pub entity_id: Option<String>,
    /// The `entity_id` of its `result`, when that is a string.
    pub result_entity_id: Option<String>,
    /// Its `ingested_count`, when that is an unsigned integer.
    pub ingested_count: Option<u64>,
    /// The reply written out as JSON text.
    pub text: String,
}

/// The status part of an answer to the client.
#[derive(Debug)]
pub struct ReplyStatus {
    pub success: bool,
    pub error_code: String,
    pub error_message: String,
    pub error_context: Option<JsonValue>,
}

/// The answer to a transaction.
#[derive(Debug)]
pub struct TransactReply {
    pub status: ReplyStatus,
    pub entity_id: String,
}

/// The detail of the error raised when the engine reports an error without
/// saying which.
pub open spec fn missing_error_detail() -> Seq<char> {
    "IOP devolvió status=error sin objeto 'error'"@
}

/// `s` is the failed status that the engine's error object `err` reads as:
/// its code (`UNKNOWN` when it has none), its description (empty when it
/// has none), and its context unless that is absent or null.
pub open spec fn failed_status(err: ErrorFields, s: ReplyStatus) -> bool {
    &&& !s.success
    &&& s.error_code@ == (match err.code {
        Some(c) => c@,
        None => "UNKNOWN"@,
    })
    &&& s.error_message@ == (match err.description {
        Some(d) => d@,
        None => Seq::<char>::empty(),
    })
    &&& s.error_context == (match err.context {
        Some(JsonValue::Null) => None,
        other => other,
    })
}

/// `s` is a successful status with the given message.
pub open spec fn ok_status(s: ReplyStatus, message: Seq<char>) -> bool {
    s.success && s.error_code@.len() == 0 && s.error_message@ == message && s.error_context is None
}

/// The entity a successful write reports: the reply's non-empty
/// `entity_id`, or else its result's `entity_id`, or else none.
pub open spec fn reported_entity_id(top: Option<String>, nested: Option<String>) -> Seq<char> {
    if top is Some && top->0@.len() > 0 {
        top->0@
    } else if nested is Some {
        nested->0@
    } else {
        Seq::empty()
    }
}

fn failed_reply_status(err: ErrorFields) -> (s: ReplyStatus)
    ensures
        failed_status(err, s),
{
    let code = match err.code {
        Some(c) => c,
        None => String::from_str("UNKNOWN"),
    };
    let message = match err.description {
        Some(d) => d,
        None => String::new(),
    };
    let context = match err.context {
        Some(JsonValue::Null) => None,
        other => other,
    };
    ReplyStatus { success: false, error_code: code, error_message: message, error_context: context }
}

/// The answer to a transaction once the engine has replied: a failed
/// status built from the reply's error object; an internal error when the
/// reply reports an error without one; else success, with the entity the
/// reply reports and, when it reports none, the reply's text as message.
pub fn transact_response(outcome: ExecOutcome) -> (r: Result<TransactReply, DomainError>)
    ensures
        outcome.is_error && outcome.error is None ==> (r matches Err(e) && e.code == ErrorCode::Janus500
            && e.detail@ == missing_error_detail() && e.stage@.len() == 0 && !e.retryable && e.context is None),
        outcome.is_error && outcome.error is Some ==> (r matches Ok(rep) && failed_status(
            outcome.error->0,
            rep.status,
        ) && rep.entity_id@.len() == 0),
        !outcome.is_error ==> (r matches Ok(rep) && rep.entity_id@ == reported_entity_id(
            outcome.entity_id,
            outcome.result_entity_id,
        ) && ok_status(
            rep.status,
            if rep.entity_id@.len() == 0 {
                outcome.text@
            } else {
                Seq::empty()
            },
        )),
{
    if outcome.is_error {
        match outcome.error {
            None => Err(
                DomainError::new(ErrorCode::Janus500, String::from_str("IOP devolvió status=error sin objeto 'error'")),
            ),
            Some(err) => Ok(TransactReply { status: failed_reply_status(err), entity_id: String::new() }),
        }
    } else {
        let entity_id = match outcome.entity_id {
            Some(e) if !e.as_str().is_empty() => e,
            _ => match outcome.result_entity_id {
                Some(e) => e,
                None => String::new(),
            },
        };
        let message = if entity_id.as_str().is_empty() {
            outcome.text
        } else {
            String::new()
        };
        Ok(
            TransactReply {
                status: ReplyStatus { success: true, error_code: String::new(), error_message: message, error_context: None },
                entity_id,
            },
        )
    }
}

// ------------------------------------------------------------------- bulk

/// How the rows of a bulk request are carried.
#[derive(Debug)]
pub enum BulkRows {
    /// Rows of values, one per column, in column order.
    RowsJson(Vec<Vec<JsonValue>>),
    /// Any other form.
    Other,
}

/// The data of a bulk request: its columns and, when set, its rows.
#[derive(Debug)]
pub struct BulkData {
    pub columns: Vec<String>,
    pub rows: Option<BulkRows>,
}

/// What a bulk request asks of the engine.
#[derive(Debug)]
pub struct BulkPlan {
    pub tenant_id: String,
    pub user_id: String,
    pub entity_type: String,
    pub operation: String,
    /// One object per row.
    pub rows: Vec<JsonValue>,
    /// Each row's grants are validated first (roles being written).
    pub check_grants: bool,
    /// The cached principals of the written entities are dropped after a
    /// successful ingest (users, roles and groups).
    pub invalidates_principals: bool,
}

/// Position of the first field of `fields` named `key`.
pub open spec fn key_index(fields: Seq<(String, JsonValue)>, key: Seq<char>) -> Option<int>
    decreases fields.len(),
{
    if fields.len() == 0 {
        None
    } else if fields.last().0@ == key && key_index(fields.drop_last(), key) is None {
        Some(fields.len() - 1)
    } else {
        key_index(fields.drop_last(), key)
    }
}

/// `fields` with the field `k` set to `v`: in place when it is there,
/// appended otherwise.
pub open spec fn put_field(fields: Seq<(String, JsonValue)>, k: String, v: JsonValue) -> Seq<(String, JsonValue)> {
    match key_index(fields, k@) {
        Some(j) => fields.update(j, (k, v)),
        None => fields.push((k, v)),
    }
}

/// The object of a row: each value set under its column's name, in order;
/// values past the last column are dropped, and a later column of the same
/// name overrides an earlier one.
pub open spec fn row_fields(columns: Seq<String>, values: Seq<JsonValue>) -> Seq<(String, JsonValue)>
    decreases values.len(),
{
    if values.len() == 0 {
        Seq::empty()
    } else {
        let prev = row_fields(columns, values.drop_last());
        let i = values.len() - 1;
        if i < columns.len() {
            put_field(prev, columns[i], values.last())
        } else {
            prev
        }
    }
}

pub(crate) proof fn lemma_key_index_found(fields: Seq<(String, JsonValue)>, key: Seq<char>, j: int)
    requires
        0 <= j < fields.len(),
        fields[j].0@ == key,
        forall|i: int| 0 <= i < j ==> fields[i].0@ != key,
    ensures
        key_index(fields, key) == Some(j),
    decreases fields.len(),
{
    if j < fields.len() - 1 {
        lemma_key_index_found(fields.drop_last(), key, j);
    } else {
        lemma_key_index_none(fields.drop_last(), key);
    }
}

pub(crate) proof fn lemma_key_index_none(fields: Seq<(String, JsonValue)>, key: Seq<char>)
    requires
        forall|i: int| 0 <= i < fields.len() ==> fields[i].0@ != key,
    ensures
        key_index(fields, key) is None,
    decreases fields.len(),
{
    if fields.len() > 0 {
        lemma_key_index_none(fields.drop_last(), key);
    }
}

pub(crate) fn put_field_exec(fields: &mut Vec<(String, JsonValue)>, k: String, v: JsonValue)
    ensures
        final(fields)@ == put_field(old(fields)@, k, v),
{
    let mut j: usize = 0;
    while j < fields.len()
        invariant
            j <= fields@.len(),
            fields@ == old(fields)@,
            forall|i: int| 0 <= i < j ==> fields@[i].0@ != k@,
        decreases fields@.len() - j,
    {
        if same_text(fields[j].0.as_str(), k.as_str()) {
            proof {
                lemma_key_index_found(fields@, k@, j as int);
            }
            fields.set(j, (k, v));
            return;
        }
        j = j + 1;
    }
    proof {
        lemma_key_index_none(fields@, k@);
    }
    fields.push((k, v));
}

fn build_row(columns: &Vec<String>, values: Vec<JsonValue>) -> (r: Vec<(String, JsonValue)>)
    ensures
        r@ == row_fields(columns@, values@),
{
    let ghost all = values@;
    let mut rest = values;
    let mut fields: Vec<(String, JsonValue)> = Vec::new();
    let mut i: usize = 0;
    let total = rest.len();
    while rest.len() > 0
        invariant
            all.len() == total,
            i + rest@.len() == all.len(),
            rest@ == all.skip(i as int),
            fields@ == row_fields(columns@, all.take(i as int)),
        decreases rest@.len(),
    {
        let v = rest.remove(0);
        proof {
            assert(all.take(i + 1).drop_last() =~= all.take(i as int));
            assert(all.take(i + 1).last() == all[i as int]);
            assert(rest@ =~= all.skip(i + 1));
        }
        if i < columns.len() {
            let k = columns[i].clone();
            put_field_exec(&mut fields, k, v);
        }
        i = i + 1;
    }
    proof {
        assert(all.take(i as int) =~= all);
    }
    fields
}

/// The message of a bulk request without data.
pub open spec fn data_required_message() -> Seq<char> {
    "data (RowSet) is required"@
}

/// The message of a bulk request without rows.
pub open spec fn strategy_required_message() -> Seq<char> {
    "payload_strategy is required"@
}

/// The message of a bulk request whose rows come in another form.
pub open spec fn rows_json_only_message() -> Seq<char> {
    "Only RowsJson is supported for BulkIngest right now"@
}

/// Whether writes of this entity type change a cached principal.
pub open spec fn principal_entity(entity_type: Seq<char>) -> bool {
    entity_type == "user"@ || entity_type == "role"@ || entity_type == "user_group"@
}

/// `p` is the plan of a bulk request whose rows of values are `rows`.
pub open spec fn bulk_plan_is(
    p: BulkPlan,
    session_tenant: Seq<char>,
    user_id: Seq<char>,
    requested_tenant: Seq<char>,
    entity_type: Seq<char>,
    action: i32,
    columns: Seq<String>,
    rows: Seq<Vec<JsonValue>>,
) -> bool {
    &&& p.tenant_id@ == resolved_tenant(session_tenant, requested_tenant)
    &&& p.user_id@ == user_id
    &&& p.entity_type@ == entity_type
    &&& p.operation@ == operation_name(action)
    &&& p.rows@.len() == rows.len()
    &&& forall|j: int|
        0 <= j < rows.len() ==> (#[trigger] p.rows@[j] matches JsonValue::Object(f) && f@ == row_fields(columns, rows[j]@))
    &&& p.check_grants == (entity_type == "role"@ && writes_state(operation_name(action)))
    &&& p.invalidates_principals == principal_entity(entity_type)
}

/// Plans a bulk request: its data and its rows are required, and only rows
/// of values are taken; each row becomes the object of its values under
/// their columns' names.
pub fn plan_bulk(principal: &Principal, requested_tenant: &str, entity_type: &str, action: i32, data: Option<BulkData>) -> (r: Result<
    BulkPlan,
    RpcError,
>)
    ensures
        data is None ==> (r matches Err(e) && rpc_error_is(e, RpcCode::InvalidArgument, data_required_message())),
        data is Some && data->0.rows is None ==> (r matches Err(e) && rpc_error_is(
            e,
            RpcCode::InvalidArgument,
            strategy_required_message(),
        )),
        data is Some && data->0.rows is Some && data->0.rows->0 is Other ==> (r matches Err(e) && rpc_error_is(
            e,
            RpcCode::Unimplemented,
            rows_json_only_message(),
        )),
        data is Some && data->0.rows is Some && data->0.rows->0 is RowsJson ==> (r matches Ok(p) && bulk_plan_is(
            p,
            principal.tenant_id@,
            principal.user_id@,
            requested_tenant@,
            entity_type@,
            action,
            data->0.columns@,
            data->0.rows->0->RowsJson_0@,
        )),
{
    let d = match data {
        None => {
            return Err(RpcError { code: RpcCode::InvalidArgument, message: String::from_str("data (RowSet) is required") });
        },
        Some(d) => d,
    };
    let columns = d.columns;
    let rows = match d.rows {
        None => {
            return Err(
                RpcError { code: RpcCode::InvalidArgument, message: String::from_str("payload_strategy is required") },
            );
        },
        Some(BulkRows::Other) => {
            return Err(
                RpcError {
                    code: RpcCode::Unimplemented,
                    message: String::from_str("Only RowsJson is supported for BulkIngest right now"),
                },
            );
        },
        Some(BulkRows::RowsJson(rows)) => rows,
    };
    let ghost all = rows@;
    let mut rest = rows;
    let mut out: Vec<JsonValue> = Vec::new();
    let mut i: usize = 0;
    let total = rest.len();
    while rest.len() > 0
        invariant
            all.len() == total,
            i + rest@.len() == all.len(),
            rest@ == all.skip(i as int),
            out@.len() == i,
            forall|j: int|
                0 <= j < i ==> (#[trigger] out@[j] matches JsonValue::Object(f) && f@ == row_fields(columns@, all[j]@)),
        decreases rest@.len(),
    {
        let row = rest.remove(0);
        proof {
            assert(rest@ =~= all.skip(i + 1));
        }
        let f = build_row(&columns, row);
        out.push(JsonValue::Object(f));
        i = i + 1;
    }
    proof {
        reveal_strlit("CREATE");
        reveal_strlit("UPDATE");
        reveal_strlit("DELETE");
        reveal_strlit("UNKNOWN");
        assert("DELETE"@[0] != "CREATE"@[0] && "DELETE"@[0] != "UPDATE"@[0]);
        assert("UNKNOWN"@[1] != "CREATE"@[1] && "UNKNOWN"@[1] != "UPDATE"@[1]);
    }
    let writes = action == 1 || action == 2;
    let is_role = same_text(entity_type, "role");
    let principals = same_text(entity_type, "user") || is_role || same_text(entity_type, "user_group");
    Ok(
        BulkPlan {
            tenant_id: resolve_tenant(principal.tenant_id.as_str(), requested_tenant),
            user_id: String::from_str(principal.user_id.as_str()),
            entity_type: String::from_str(entity_type),
            operation: operation_of(action),
            rows: out,
            check_grants: is_role && writes,
            invalidates_principals: principals,
        },
    )
}

/// The answer to a bulk request.
#[derive(Debug)]
pub struct BulkReply {
    pub status: ReplyStatus,
    /// How many rows the engine reports it ingested.
    pub ingested_count: i32,
    /// The cached principals of the written entities are dropped.
    pub invalidate: bool,
}

/// The count the client is answered: the engine's count, truncated to 32
/// bits as a cast does; 0 when the engine reports none.
pub open spec fn reported_count(count: Option<u64>) -> i32 {
    match count {
        Some(c) => c as i32,
        None => 0,
    }
}

/// The answer to a bulk request once the engine has replied: a failed
/// status built from the reply's error object, with nothing ingested; or
/// success, with the count the reply reports, and the written principals'
/// cache entries dropped.
pub fn bulk_response(outcome: ExecOutcome) -> (r: BulkReply)
    requires
        outcome.is_error ==> outcome.error is Some,
    ensures
        outcome.is_error ==> failed_status(outcome.error->0, r.status) && r.ingested_count == 0 && !r.invalidate,
        !outcome.is_error ==> ok_status(r.status, Seq::empty()) && r.ingested_count == reported_count(
            outcome.ingested_count,
        ) && r.invalidate,
{
    if outcome.is_error {
        match outcome.error {
            Some(err) => BulkReply { status: failed_reply_status(err), ingested_count: 0, invalidate: false },
            None => BulkReply {
                status: ReplyStatus {
                    success: false,
                    error_code: String::new(),
                    error_message: String::new(),
                    error_context: None,
                },
                ingested_count: 0,
                invalidate: false,
            },
        }
    } else {
        let count: i32 = match outcome.ingested_count {
            Some(c) => c as i32,
            None => 0,
        };
        BulkReply {
            status: ReplyStatus { success: true, error_code: String::new(), error_message: String::new(), error_context: None },
            ingested_count: count,
            invalidate: true,
        }
    }
}

// ------------------------------------------------------------------- laws

/// A session of any tenant but the system one acts for its own tenant,
/// whatever tenant the request names.
pub proof fn lemma_session_tenant_rules(session: Seq<char>, requested: Seq<char>)
    requires
        session != "system"@,
    ensures
        resolved_tenant(session, requested) == session,
{
}

/// A create never carries an identity into its mutation: the mutation of a
/// create is the one the request sent, whatever id was found.
pub proof fn lemma_create_keeps_payload(id: Seq<char>, payload: JsonValue, out: JsonValue)
    requires
        id_injected("CREATE"@, id, payload, out),
    ensures
        out == payload,
{
}

/// The values an explore request answers are non-empty and each occurs once.
pub proof fn lemma_explore_values_distinct(rows: Seq<JsonValue>, attribute: Seq<char>)
    ensures
        forall|i: int| 0 <= i < distinct_values(rows, attribute).len() ==> (#[trigger] distinct_values(rows, attribute)[i]).len() > 0,
        forall|i: int, j: int|
            0 <= i < j < distinct_values(rows, attribute).len() ==> #[trigger] distinct_values(rows, attribute)[i]
                != #[trigger] distinct_values(rows, attribute)[j],
    decreases rows.len(),
{
    if rows.len() > 0 {
        lemma_explore_values_distinct(rows.drop_last(), attribute);
        let prev = distinct_values(rows.drop_last(), attribute);
        let cur = distinct_values(rows, attribute);
        if cur != prev {
            assert forall|i: int, j: int| 0 <= i < j < cur.len() implies #[trigger] cur[i] != #[trigger] cur[j] by {
                if j == cur.len() - 1 {
                    assert(cur[i] == prev[i]);
                    assert(prev.contains(prev[i]));
                } else {
                    assert(cur[i] == prev[i] && cur[j] == prev[j]);
                }
            }
            assert forall|i: int| 0 <= i < cur.len() implies (#[trigger] cur[i]).len() > 0 by {
                if i < prev.len() {
                    assert(cur[i] == prev[i]);
                }
            }
        }
    }
}

/// The entities a query request reads do not depend on the order of its
/// sub-queries: requests naming the same entities, as often each, read the
/// same entities.
pub proof fn lemma_query_entities_order_free(a: Seq<SubQuery>, b: Seq<SubQuery>)
    requires
        named_entities(a).to_multiset() == named_entities(b).to_multiset(),
    ensures
        query_entities(a) == query_entities(b),
{
    crate::order::lemma_lex_total_ordering();
    let sa = crate::order::sorted_views(named_entities(a));
    named_entities(a).lemma_sort_by_ensures(crate::order::lex_rel());
    crate::order::lemma_sorted_views_unique(sa, named_entities(b));
}

// ------------------------------------------------------------------ query

/// One sub-query of a query request, as far as the plan reads it.
#[derive(Debug)]
pub struct SubQuery {
    pub entity: String,
    pub output_cast: i32,
}

/// What a query request is authorised as.
#[derive(Debug)]
pub struct QueryPlan {
    pub tenant_id: String,
    /// The entities the request reads: distinct, non-empty, in
    /// lexicographic order.
    pub entities: Vec<String>,
    /// The entity the authorisation names: the first of `entities`, else
    /// `project`.
    pub target_entity: String,
    /// The domains the authorisation names: `entities` joined with commas,
    /// else `project`.
    pub target_domains: String,
    /// `EXPORT` when some sub-query asks for a CSV export, else `VIEW`.
    pub action: String,
}

/// The non-empty entity names of the sub-queries, in order.
pub open spec fn named_entities(queries: Seq<SubQuery>) -> Seq<Seq<char>>
    decreases queries.len(),
{
    if queries.len() == 0 {
        Seq::empty()
    } else {
        let prev = named_entities(queries.drop_last());
        if queries.last().entity@.len() > 0 {
            prev.push(queries.last().entity@)
        } else {
            prev
        }
    }
}

/// `s` without the elements equal to the one before them.
pub open spec fn dedup_adjacent(s: Seq<Seq<char>>) -> Seq<Seq<char>>
    decreases s.len(),
{
    if s.len() == 0 {
        Seq::empty()
    } else {
        let prev = dedup_adjacent(s.drop_last());
        if s.len() >= 2 && s[s.len() - 2] == s.last() {
            prev
        } else {
            prev.push(s.last())
        }
    }
}

/// The texts of `s` joined with commas.
pub open spec fn comma_joined(s: Seq<Seq<char>>) -> Seq<char>
    decreases s.len(),
{
    if s.len() == 0 {
        Seq::empty()
    } else if s.len() == 1 {
        s[0]
    } else {
        comma_joined(s.drop_last()) + ","@ + s.last()
    }
}

/// The entities a query request reads: its sub-queries' non-empty entity
/// names, sorted, each once.
pub open spec fn query_entities(queries: Seq<SubQuery>) -> Seq<Seq<char>> {
    dedup_adjacent(crate::order::sorted_views(named_entities(queries)))
}

/// Some sub-query asks for a CSV export.
pub open spec fn exports_csv(queries: Seq<SubQuery>) -> bool {
    exists|i: int| 0 <= i < queries.len() && #[trigger] queries[i].output_cast == 6
}

/// Plans the authorisation of a query request: the resolved tenant, the
/// entities it reads, the entity and domains the authorisation names, and
/// whether it reads or exports.
pub fn plan_query(session_tenant: &str, requested_tenant: &str, queries: &Vec<SubQuery>) -> (r: QueryPlan)
    ensures
        r.tenant_id@ == resolved_tenant(session_tenant@, requested_tenant@),
        crate::list_support::views(r.entities@) == query_entities(queries@),
        r.target_entity@ == (if query_entities(queries@).len() == 0 {
            "project"@
        } else {
            query_entities(queries@)[0]
        }),
        r.target_domains@ == (if query_entities(queries@).len() == 0 {
            "project"@
        } else {
            comma_joined(query_entities(queries@))
        }),
        r.action@ == (if exports_csv(queries@) {
            "EXPORT"@
        } else {
            "VIEW"@
        }),
{
    let mut names: Vec<String> = Vec::new();
    let mut export = false;
    let mut i: usize = 0;
    while i < queries.len()
        invariant
            i <= queries@.len(),
            crate::list_support::views(names@) == named_entities(queries@.take(i as int)),
            export == exists|j: int| 0 <= j < i && #[trigger] queries@[j].output_cast == 6,
        decreases queries@.len() - i,
    {
        proof {
            assert(queries@.take(i + 1).drop_last() =~= queries@.take(i as int));
            assert(queries@.take(i + 1).last() == queries@[i as int]);
        }
        if !queries[i].entity.as_str().is_empty() {
            let ghost before = names@;
            names.push(String::from_str(queries[i].entity.as_str()));
            proof {
                assert(crate::list_support::views(names@) =~= crate::list_support::views(before).push(
                    queries@[i as int].entity@,
                ));
            }
        }
        if queries[i].output_cast == 6 {
            export = true;
        }
        i = i + 1;
    }
    proof {
        assert(queries@.take(queries@.len() as int) =~= queries@);
    }
    let count = names.len();
    let ghost named = crate::list_support::views(names@);
    assert(named.len() == count);
    crate::list_support::sort_and_truncate(&mut names, usize::MAX);
    proof {
        assert(crate::order::sorted_views(named).len() == named.len()) by {
            broadcast use vstd::seq_lib::group_to_multiset_ensures;

            crate::order::lemma_lex_total_ordering();
            named.lemma_sort_by_ensures(crate::order::lex_rel());
            assert(crate::order::sorted_views(named).to_multiset().len() == crate::order::sorted_views(named).len());
            assert(named.to_multiset().len() == named.len());
        }
    }
    let ghost sorted = crate::list_support::views(names@);
    assert(sorted == crate::list_support::sorted_prefix(named, usize::MAX as int));
    assert(sorted == crate::order::sorted_views(named));
    let mut entities: Vec<String> = Vec::new();
    let mut domains = String::new();
    let mut k: usize = 0;
    while k < names.len()
        invariant
            k <= names@.len(),
            sorted == crate::list_support::views(names@),
            crate::list_support::views(entities@) == dedup_adjacent(sorted.take(k as int)),
            domains@ == comma_joined(dedup_adjacent(sorted.take(k as int))),
            k > 0 ==> entities@.len() > 0 && entities@.last()@ == sorted[k - 1],
        decreases names@.len() - k,
    {
        proof {
            assert(sorted.take(k + 1).drop_last() =~= sorted.take(k as int));
            assert(sorted.take(k + 1).last() == sorted[k as int]);
            if k > 0 {
                assert(sorted.take(k + 1)[k - 1] == sorted[k - 1]);
            }
        }
        let repeat = k > 0 && same_text(names[k - 1].as_str(), names[k].as_str());
        if !repeat {
            let ghost before = entities@;
            let ghost d = dedup_adjacent(sorted.take(k as int));
            if k > 0 {
                domains.append(",");
            }
            domains.append(names[k].as_str());
            entities.push(String::from_str(names[k].as_str()));
            proof {
                assert(crate::list_support::views(entities@) =~= crate::list_support::views(before).push(sorted[k as int]));
                if k > 0 {
                    assert(d.len() > 0);
                    assert(d.push(sorted[k as int]).drop_last() =~= d);
                } else {
                    assert(d.len() == 0);
                }
            }
        }
        k = k + 1;
    }
    proof {
        assert(sorted.take(names@.len() as int) =~= sorted);
    }
    let (target_entity, target_domains) = if entities.len() == 0 {
        (String::from_str("project"), String::from_str("project"))
    } else {
        (String::from_str(entities[0].as_str()), domains)
    };
    let action = if export {
        String::from_str("EXPORT")
    } else {
        String::from_str("VIEW")
    };
    QueryPlan {
        tenant_id: resolve_tenant(session_tenant, requested_tenant),
        entities,
        target_entity,
        target_domains,
        action,
    }
}

} // verus!
