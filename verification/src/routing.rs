//! The routing-rules query of the query service: which of the rules read
//! for an event's entity and trigger match the event, and to which
//! webhooks each matched rule is delivered.
use vstd::prelude::*;
use vstd::string::StringExecFns;
use crate::eda::{json_error_of, json_error_text};
use crate::errors::{rpc_error_is, RpcCode, RpcError};
use crate::handlers::{field_ref, get_field, JsonValue};
use crate::numbers::{parse_i64, parse_int};
use crate::text::{chars_of, same_text};
use crate::viz_meta::str_or;

verus! {

/// The message of a routing query from a session of any tenant but the system one.
pub open spec fn routing_denied_message() -> Seq<char> {
    "Acceso denegado: Se requiere rol de sistema para la consulta de ruteo"@
}

/// Only a session of the system tenant may query the routing rules.
pub fn authorize_routing(session_tenant: &str) -> (r: Result<(), RpcError>)
    ensures
        (r is Ok) <==> session_tenant@ == "system"@,
        r is Err ==> rpc_error_is(r->Err_0, RpcCode::PermissionDenied, routing_denied_message()),
{
    if same_text(session_tenant, "system") {
        Ok(())
    } else {
        Err(
            RpcError {
                code: RpcCode::PermissionDenied,
                message: String::from_str("Acceso denegado: Se requiere rol de sistema para la consulta de ruteo"),
            },
        )
    }
}

/// One request of a routing batch.
#[derive(Debug)]
pub struct RoutingRequest {
    pub tenant_id: String,
    pub entity_name: String,
    pub trigger_type: String,
    pub cdc_payload_json: Vec<u8>,
}

/// A rule row read for the request's entity and trigger, and whether its
/// filter conditions hold on the request's payload (they do when it has
/// none, or none that can be read).
#[derive(Debug)]
pub struct RuleRow {
    pub row: JsonValue,
    pub passes: bool,
}

/// Where and how a matched rule is delivered.
#[derive(Debug)]
pub struct WebhookTarget {
    pub target_url: String,
    pub http_method: String,
    pub auth_type: String,
    pub resolved_auth_secret: String,
    pub max_retries: i32,
    pub timeout_seconds: i32,
}

/// A rule that matched the event.
#[derive(Debug)]
pub struct MatchedRule {
    pub rule_code: String,
    pub detail_type_output: String,
    pub webhooks: Vec<WebhookTarget>,
    pub priority: i32,
    pub name: String,
}

/// The answer to one request of a routing batch.
#[derive(Debug)]
pub struct MatchedRouting {
    pub matched_rules: Vec<MatchedRule>,
}

/// The message of a request whose payload is not JSON.
pub open spec fn routing_payload_message(error: Seq<char>) -> Seq<char> {
    "Payload JSON inválido: "@ + error
}

/// `v` is the JSON string `t`.
pub open spec fn is_text(v: JsonValue, t: Seq<char>) -> bool {
    v matches JsonValue::Str(s) && s@ == t
}

/// Some item of `items` is the JSON string `t`.
pub open spec fn list_has(items: Seq<JsonValue>, t: Seq<char>) -> bool {
    exists|i: int| 0 <= i < items.len() && is_text(#[trigger] items[i], t)
}

/// Whether the webhook `w` is subscribed to the rule with id `rule_id`: its
/// `subscribed_rule_ids` is a list holding that id as a string, or is that id.
pub open spec fn subscribes_to(w: JsonValue, rule_id: Seq<char>) -> bool {
    match get_field(w, "subscribed_rule_ids"@) {
        Some(JsonValue::Array(items)) => list_has(items@, rule_id),
        Some(JsonValue::Str(s)) => s@ == rule_id,
        _ => false,
    }
}

/// A webhook is subscribed to a rule when its `subscribed_rule_ids` list
/// holds the rule's id as a string at any position.
pub proof fn lemma_any_listed_id_subscribes(w: JsonValue, items: Vec<JsonValue>, i: int, rule_id: Seq<char>)
    requires
        get_field(w, "subscribed_rule_ids"@) == Some(JsonValue::Array(items)),
        0 <= i < items@.len(),
        items@[i] is Str,
        items@[i]->Str_0@ == rule_id,
    ensures
        subscribes_to(w, rule_id),
{
    assert(is_text(items@[i], rule_id));
}

/// A webhook whose `subscribed_rule_ids` list holds the id of no rule as a
/// string is subscribed to none.
pub proof fn lemma_unlisted_id_does_not_subscribe(w: JsonValue, items: Vec<JsonValue>, rule_id: Seq<char>)
    requires
        get_field(w, "subscribed_rule_ids"@) == Some(JsonValue::Array(items)),
        forall|i: int| 0 <= i < items@.len() ==> !(#[trigger] items@[i] is Str) || items@[i]->Str_0@ != rule_id,
    ensures
        !subscribes_to(w, rule_id),
{
}

/// A webhook whose `subscribed_rule_ids` is a single string is subscribed
/// exactly to the rule of that id.
pub proof fn lemma_single_id_subscribes(w: JsonValue, id: String, rule_id: Seq<char>)
    requires
        get_field(w, "subscribed_rule_ids"@) == Some(JsonValue::Str(id)),
    ensures
        subscribes_to(w, rule_id) <==> id@ == rule_id,
{
}

/// The retries of a webhook: its `max_retries` when that is a number that
/// fits an `i64`, cut to 32 bits as a cast does; 3 otherwise.
pub open spec fn retries_of(w: JsonValue) -> i32 {
    match get_field(w, "max_retries"@) {
        Some(JsonValue::Number(t)) => match parse_int(t@) {
            Some(n) => (n as i64) as i32,
            None => 3,
        },
        _ => 3,
    }
}

/// `t` is the delivery to the webhook `w`: its URL, method (`POST`), auth
/// type (`NONE`) and token, as read, its retries, and a 10-second timeout.
pub open spec fn target_is(t: WebhookTarget, w: JsonValue) -> bool {
    &&& t.target_url@ == str_or(get_field(w, "target_url"@), ""@)
    &&& t.http_method@ == str_or(get_field(w, "http_method"@), "POST"@)
    &&& t.auth_type@ == str_or(get_field(w, "authentication_type"@), "NONE"@)
    &&& t.resolved_auth_secret@ == str_or(get_field(w, "auth_token"@), ""@)
    &&& t.max_retries == retries_of(w)
    &&& t.timeout_seconds == 10
}

/// The id of a rule row: its `id` when that is a string, else empty.
pub open spec fn rule_id_of(rule: JsonValue) -> Seq<char> {
    str_or(get_field(rule, "id"@), ""@)
}

/// Positions of the webhooks subscribed to `rule_id`, in order.
pub open spec fn subscribed_positions(webhooks: Seq<JsonValue>, rule_id: Seq<char>) -> Seq<int>
    decreases webhooks.len(),
{
    if webhooks.len() == 0 {
        Seq::empty()
    } else {
        let prev = subscribed_positions(webhooks.drop_last(), rule_id);
        if subscribes_to(webhooks.last(), rule_id) {
            prev.push(webhooks.len() - 1)
        } else {
            prev
        }
    }
}

/// Positions of the rules whose conditions hold, in order.
pub open spec fn passing_positions(rules: Seq<RuleRow>) -> Seq<int>
    decreases rules.len(),
{
    if rules.len() == 0 {
        Seq::empty()
    } else {
        let prev = passing_positions(rules.drop_last());
        if rules.last().passes {
            prev.push(rules.len() - 1)
        } else {
            prev
        }
    }
}

/// `m` is the match of the rule row `rule` with the webhooks `webhooks`:
/// its code and output detail type, its description as name, priority 1,
/// and one delivery per subscribed webhook, in order.
pub open spec fn matched_rule_is(m: MatchedRule, rule: JsonValue, webhooks: Seq<JsonValue>) -> bool {
    let pos = subscribed_positions(webhooks, rule_id_of(rule));
    &&& m.rule_code@ == str_or(get_field(rule, "rule_code"@), ""@)
    &&& m.detail_type_output@ == str_or(get_field(rule, "detail_type_output"@), ""@)
    &&& m.name@ == str_or(get_field(rule, "description"@), ""@)
    &&& m.priority == 1
    &&& m.webhooks@.len() == pos.len()
    &&& forall|j: int| 0 <= j < pos.len() ==> target_is(#[trigger] m.webhooks@[j], webhooks[pos[j]])
}

proof fn lemma_positions_bounded(webhooks: Seq<JsonValue>, rule_id: Seq<char>)
    ensures
        forall|j: int|
            0 <= j < subscribed_positions(webhooks, rule_id).len() ==> 0 <= #[trigger] subscribed_positions(
                webhooks,
                rule_id,
            )[j] < webhooks.len(),
    decreases webhooks.len(),
{
    if webhooks.len() > 0 {
        let earlier = webhooks.drop_last();
        lemma_positions_bounded(earlier, rule_id);
        let p = subscribed_positions(webhooks, rule_id);
        assert forall|j: int| 0 <= j < p.len() implies 0 <= #[trigger] p[j] < webhooks.len() by {
            if j < subscribed_positions(earlier, rule_id).len() {
                assert(p[j] == subscribed_positions(earlier, rule_id)[j]);
            }
        }
    }
}

proof fn lemma_passing_bounded(rules: Seq<RuleRow>)
    ensures
        forall|j: int| 0 <= j < passing_positions(rules).len() ==> 0 <= #[trigger] passing_positions(rules)[j] < rules.len(),
    decreases rules.len(),
{
    if rules.len() > 0 {
        let earlier = rules.drop_last();
        lemma_passing_bounded(earlier);
        let p = passing_positions(rules);
        assert forall|j: int| 0 <= j < p.len() implies 0 <= #[trigger] p[j] < rules.len() by {
            if j < passing_positions(earlier).len() {
                assert(p[j] == passing_positions(earlier)[j]);
            }
        }
    }
}

fn str_field(v: &JsonValue, key: &str, default: &str) -> (r: String)
    ensures
        r@ == str_or(get_field(*v, key@), default@),
{
    match field_ref(v, key) {
        Some(JsonValue::Str(s)) => String::from_str(s.as_str()),
        _ => String::from_str(default),
    }
}

fn is_subscribed(w: &JsonValue, rule_id: &str) -> (r: bool)
    ensures
        r == subscribes_to(*w, rule_id@),
{
    let f = field_ref(w, "subscribed_rule_ids");
    match f {
        Some(v) => match v {
            JsonValue::Array(items) => {
                assert(get_field(*w, "subscribed_rule_ids"@) == Some(JsonValue::Array(*items)));
                let mut i: usize = 0;
                while i < items.len()
                    invariant
                        i <= items@.len(),
                        get_field(*w, "subscribed_rule_ids"@) == Some(JsonValue::Array(*items)),
                        forall|k: int| 0 <= k < i ==> !is_text(#[trigger] items@[k], rule_id@),
                    decreases items@.len() - i,
                {
                    let hit = match &items[i] {
                        JsonValue::Str(s) => same_text(s.as_str(), rule_id),
                        _ => false,
                    };
                    if hit {
                        assert(is_text(items@[i as int], rule_id@));
                        assert(list_has(items@, rule_id@));
                        return true;
                    }
                    i = i + 1;
                }
                false
            },
            JsonValue::Str(s) => same_text(s.as_str(), rule_id),
            _ => false,
        },
        None => false,
    }
}

fn read_retries(w: &JsonValue) -> (r: i32)
    ensures
        r == retries_of(*w),
{
    match field_ref(w, "max_retries") {
        Some(JsonValue::Number(t)) => match parse_i64(&chars_of(t.as_str())) {
            Some(n) => n as i32,
            None => 3,
        },
        _ => 3,
    }
}

fn read_target(w: &JsonValue) -> (r: WebhookTarget)
    ensures
        target_is(r, *w),
{
    WebhookTarget {
        target_url: str_field(w, "target_url", ""),
        http_method: str_field(w, "http_method", "POST"),
        auth_type: str_field(w, "authentication_type", "NONE"),
        resolved_auth_secret: str_field(w, "auth_token", ""),
        max_retries: read_retries(w),
        timeout_seconds: 10,
    }
}

fn match_rule(rule: &JsonValue, webhooks: &Vec<JsonValue>) -> (r: MatchedRule)
    ensures
        matched_rule_is(r, *rule, webhooks@),
{
    let rule_id = str_field(rule, "id", "");
    let ghost pos = subscribed_positions(webhooks@, rule_id@);
    let mut targets: Vec<WebhookTarget> = Vec::new();
    let mut i: usize = 0;
    while i < webhooks.len()
        invariant
            i <= webhooks@.len(),
            rule_id@ == rule_id_of(*rule),
            targets@.len() == subscribed_positions(webhooks@.take(i as int), rule_id@).len(),
            forall|j: int|
                0 <= j < targets@.len() ==> target_is(
                    #[trigger] targets@[j],
                    webhooks@[subscribed_positions(webhooks@.take(i as int), rule_id@)[j]],
                ),
        decreases webhooks@.len() - i,
    {
        let ghost prev = subscribed_positions(webhooks@.take(i as int), rule_id@);
        proof {
            assert(webhooks@.take(i + 1).drop_last() =~= webhooks@.take(i as int));
            assert(webhooks@.take(i + 1).last() == webhooks@[i as int]);
            lemma_positions_bounded(webhooks@.take(i as int), rule_id@);
        }
        if is_subscribed(&webhooks[i], rule_id.as_str()) {
            targets.push(read_target(&webhooks[i]));
            proof {
                assert forall|j: int| 0 <= j < targets@.len() implies target_is(
                    #[trigger] targets@[j],
                    webhooks@[subscribed_positions(webhooks@.take(i + 1), rule_id@)[j]],
                ) by {
                    if j < prev.len() {
                        assert(subscribed_positions(webhooks@.take(i + 1), rule_id@)[j] == prev[j]);
                    }
                }
            }
        }
        i = i + 1;
    }
    proof {
        assert(webhooks@.take(webhooks@.len() as int) =~= webhooks@);
    }
    MatchedRule {
        rule_code: str_field(rule, "rule_code", ""),
        detail_type_output: str_field(rule, "detail_type_output", ""),
        webhooks: targets,
        priority: 1,
        name: str_field(rule, "description", ""),
    }
}

/// Matches one request of a routing batch: its payload must be JSON (the
/// batch fails with `InvalidArgument` otherwise); each rule whose
/// conditions hold, in order, is matched with the webhooks subscribed to it.
pub fn match_routing_request(req: &RoutingRequest, rules: &Vec<RuleRow>, webhooks: &Vec<JsonValue>) -> (r: Result<
    MatchedRouting,
    RpcError,
>)
    ensures
        match json_error_text(req.cdc_payload_json@) {
            Some(t) => r matches Err(e) && rpc_error_is(e, RpcCode::InvalidArgument, routing_payload_message(t)),
            None => r matches Ok(m) && {
                let pos = passing_positions(rules@);
                &&& m.matched_rules@.len() == pos.len()
                &&& forall|j: int|
                    0 <= j < pos.len() ==> matched_rule_is(#[trigger] m.matched_rules@[j], rules@[pos[j]].row, webhooks@)
            },
        },
{
    match json_error_of(&req.cdc_payload_json) {
        Some(t) => {
            let mut m = String::from_str("Payload JSON inválido: ");
            m.append(t.as_str());
            return Err(RpcError { code: RpcCode::InvalidArgument, message: m });
        },
        None => {},
    }
    let mut out: Vec<MatchedRule> = Vec::new();
    let mut i: usize = 0;
    while i < rules.len()
        invariant
            i <= rules@.len(),
            out@.len() == passing_positions(rules@.take(i as int)).len(),
            forall|j: int|
                0 <= j < out@.len() ==> matched_rule_is(
                    #[trigger] out@[j],
                    rules@[passing_positions(rules@.take(i as int))[j]].row,
                    webhooks@,
                ),
        decreases rules@.len() - i,
    {
        let ghost prev = passing_positions(rules@.take(i as int));
        proof {
            assert(rules@.take(i + 1).drop_last() =~= rules@.take(i as int));
            assert(rules@.take(i + 1).last() == rules@[i as int]);
            lemma_passing_bounded(rules@.take(i as int));
        }
        if rules[i].passes {
            out.push(match_rule(&rules[i].row, webhooks));
            proof {
                assert forall|j: int| 0 <= j < out@.len() implies matched_rule_is(
                    #[trigger] out@[j],
                    rules@[passing_positions(rules@.take(i + 1))[j]].row,
                    webhooks@,
                ) by {
                    if j < prev.len() {
                        assert(passing_positions(rules@.take(i + 1))[j] == prev[j]);
                    }
                }
            }
        }
        i = i + 1;
    }
    proof {
        assert(rules@.take(rules@.len() as int) =~= rules@);
    }
    Ok(MatchedRouting { matched_rules: out })
}

} // verus!
