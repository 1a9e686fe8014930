//! Event routing for the outbox relay: which webhooks an outbox event goes
//! to, given the routing rules of its entity and trigger and the tenant's
//! active webhooks.
//!
//! A rule matches when its filter conditions hold on the event's payload.
//! Every webhook subscribed to a matching rule becomes a destination, in rule
//! order and then webhook order, carrying the payload in standard base64. An
//! event that no rule matches is reported as unmatched.
use vstd::prelude::*;
use vstd::string::StringExecFns;
use crate::json::{digits_of, digits_text};
use crate::text::{joined, opt_text, same_text, split_chars, split_on, string_from_chars, trim, trim_vec};
use crate::errors::{rpc_error_is, RpcCode, RpcError};
use crate::base64_text::base64_standard;

verus! {

/// One outbox event to route.
#[derive(Debug)]
pub struct EdaMatchRequest {
    pub outbox_id: String,
    pub tenant_id: String,
    pub entity_name: String,
    pub trigger_type: String,
    pub cdc_payload_json: Vec<u8>,
}

/// A destination of an event.
#[derive(Debug)]
pub struct EdaWebhookTarget {
    pub webhook_url: String,
    pub secret_token_cipher: String,
    pub prepared_payload_base64: String,
}

/// The routing of one matched event.
#[derive(Debug)]
pub struct EdaRoutingResult {
    pub outbox_id: String,
    pub detail_type_output: String,
    pub destinations: Vec<EdaWebhookTarget>,
}

/// The routing of a batch.
#[derive(Debug)]
pub struct EdaResponseJson {
    pub routing_results: Vec<EdaRoutingResult>,
    pub unmatched_outbox_ids: Vec<String>,
}

/// A routing rule of the event's entity and trigger, as read: its id (empty
/// when it has none), its output detail type (empty when it has none), and
/// whether its filter conditions hold on the event's payload (true when it
/// has none).
#[derive(Debug)]
pub struct RoutingRule {
    pub id: String,
    pub detail_type_output: String,
    pub passes: bool,
}

/// An active webhook of the tenant, as read: its target, its token (empty
/// when missing), and the rule ids it subscribes to (a single id is a list
/// of one; ids that are not strings are left out).
#[derive(Debug)]
pub struct WebhookEndpoint {
    pub target_url: String,
    pub auth_token: String,
    pub subscribed_rule_ids: Vec<String>,
}

/// An event together with what was read for it.
#[derive(Debug)]
pub struct EventToRoute {
    pub request: EdaMatchRequest,
    pub rules: Vec<RoutingRule>,
    pub webhooks: Vec<WebhookEndpoint>,
}

/// Calls `Engine::encode` of `base64::engine::general_purpose::STANDARD`: the
/// result is the padded standard encoding of `bytes`, as `base64_standard`
/// spells it out. The encoded length must fit a `usize`.
#[verifier::external_body]
fn encode_base64(bytes: &Vec<u8>) -> (r: String)
    requires
        bytes@.len() <= usize::MAX / 2,
    ensures
        r@ == base64_standard(bytes@),
{
    base64::Engine::encode(&base64::engine::general_purpose::STANDARD, bytes)
}

/// The webhook subscribes to the rule with id `rule_id`.
pub open spec fn subscribes(w: WebhookEndpoint, rule_id: Seq<char>) -> bool {
    exists|i: int| 0 <= i < w.subscribed_rule_ids@.len() && #[trigger] w.subscribed_rule_ids@[i]@ == rule_id
}

/// A destination as text: target, token, payload.
pub open spec fn target_view(t: EdaWebhookTarget) -> (Seq<char>, Seq<char>, Seq<char>) {
    (t.webhook_url@, t.secret_token_cipher@, t.prepared_payload_base64@)
}

/// The destinations that one rule contributes: its subscribed webhooks, in order.
pub open spec fn rule_targets(
    rule_id: Seq<char>,
    webhooks: Seq<WebhookEndpoint>,
    payload: Seq<char>,
) -> Seq<(Seq<char>, Seq<char>, Seq<char>)>
    decreases webhooks.len(),
{
    if webhooks.len() == 0 {
        Seq::empty()
    } else {
        let w = webhooks.last();
        let earlier = rule_targets(rule_id, webhooks.drop_last(), payload);
        if subscribes(w, rule_id) {
            earlier.push((w.target_url@, w.auth_token@, payload))
        } else {
            earlier
        }
    }
}

/// The destinations of an event: those of each matching rule, in rule order.
pub open spec fn routed_targets(
    rules: Seq<RoutingRule>,
    webhooks: Seq<WebhookEndpoint>,
    payload: Seq<char>,
) -> Seq<(Seq<char>, Seq<char>, Seq<char>)>
    decreases rules.len(),
{
    if rules.len() == 0 {
        Seq::empty()
    } else {
        let r = rules.last();
        let earlier = routed_targets(rules.drop_last(), webhooks, payload);
        if r.passes {
            earlier + rule_targets(r.id@, webhooks, payload)
        } else {
            earlier
        }
    }
}

/// The detail type of the last matching rule, if any rule matches.
pub open spec fn last_match_detail(rules: Seq<RoutingRule>) -> Option<Seq<char>>
    decreases rules.len(),
{
    if rules.len() == 0 {
        None
    } else if rules.last().passes {
        Some(rules.last().detail_type_output@)
    } else {
        last_match_detail(rules.drop_last())
    }
}

/// The routing of one event, when some rule matches.
pub open spec fn routed_as(
    r: EdaRoutingResult,
    request: EdaMatchRequest,
    rules: Seq<RoutingRule>,
    webhooks: Seq<WebhookEndpoint>,
) -> bool {
    &&& r.outbox_id@ == request.outbox_id@
    &&& Some(r.detail_type_output@) == last_match_detail(rules)
    &&& r.destinations@.map_values(|t: EdaWebhookTarget| target_view(t)) == routed_targets(
        rules,
        webhooks,
        base64_standard(request.cdc_payload_json@),
    )
}

fn text_eq(a: &String, b: &String) -> (r: bool)
    ensures
        r == (a@ == b@),
{
    same_text(a.as_str(), b.as_str())
}

fn subscribes_exec(w: &WebhookEndpoint, rule_id: &String) -> (r: bool)
    ensures
        r == subscribes(*w, rule_id@),
{
    let mut i: usize = 0;
    while i < w.subscribed_rule_ids.len()
        invariant
            i <= w.subscribed_rule_ids@.len(),
            forall|k: int| 0 <= k < i ==> w.subscribed_rule_ids@[k]@ != rule_id@,
        decreases w.subscribed_rule_ids@.len() - i,
    {
        if text_eq(&w.subscribed_rule_ids[i], rule_id) {
            return true;
        }
        i = i + 1;
    }
    false
}

/// Routes one event: `None` when no rule matches, otherwise its detail type
/// (the last matching rule's) and its destinations.
pub fn route_event(request: &EdaMatchRequest, rules: &Vec<RoutingRule>, webhooks: &Vec<WebhookEndpoint>) -> (r: Option<EdaRoutingResult>)
    requires
        request.cdc_payload_json@.len() <= usize::MAX / 2,
    ensures
        match r {
            None => last_match_detail(rules@) is None,
            Some(res) => routed_as(res, *request, rules@, webhooks@),
        },
{
    let payload = encode_base64(&request.cdc_payload_json);
    let mut destinations: Vec<EdaWebhookTarget> = Vec::new();
    let mut detail: Option<String> = None;
    let mut i: usize = 0;
    while i < rules.len()
        invariant
            i <= rules@.len(),
            payload@ == base64_standard(request.cdc_payload_json@),
            destinations@.map_values(|t: EdaWebhookTarget| target_view(t)) == routed_targets(
                rules@.take(i as int),
                webhooks@,
                payload@,
            ),
            match detail {
                None => last_match_detail(rules@.take(i as int)) is None,
                Some(d) => last_match_detail(rules@.take(i as int)) == Some(d@),
            },
        decreases rules@.len() - i,
    {
        proof {
            assert(rules@.take(i + 1).drop_last() =~= rules@.take(i as int));
            assert(rules@.take(i + 1).last() == rules@[i as int]);
        }
        let rule = &rules[i];
        if rule.passes {
            detail = Some(rule.detail_type_output.clone());
            let ghost before = destinations@.map_values(|t: EdaWebhookTarget| target_view(t));
            let mut j: usize = 0;
            while j < webhooks.len()
                invariant
                    j <= webhooks@.len(),
                    rule == rules@[i as int],
                    destinations@.map_values(|t: EdaWebhookTarget| target_view(t)) == before
                        + rule_targets(rule.id@, webhooks@.take(j as int), payload@),
                decreases webhooks@.len() - j,
            {
                proof {
                    assert(webhooks@.take(j + 1).drop_last() =~= webhooks@.take(j as int));
                    assert(webhooks@.take(j + 1).last() == webhooks@[j as int]);
                }
                let w = &webhooks[j];
                if subscribes_exec(w, &rule.id) {
                    let t = EdaWebhookTarget {
                        webhook_url: w.target_url.clone(),
                        secret_token_cipher: w.auth_token.clone(),
                        prepared_payload_base64: payload.clone(),
                    };
                    let ghost old_d = destinations@;
                    destinations.push(t);
                    proof {
                        assert(destinations@.map_values(|t: EdaWebhookTarget| target_view(t))
                            =~= old_d.map_values(|t: EdaWebhookTarget| target_view(t)).push(target_view(t)));
                    }
                }
                j = j + 1;
            }
            proof {
                assert(webhooks@.take(webhooks@.len() as int) =~= webhooks@);
            }
        }
        i = i + 1;
    }
    proof {
        assert(rules@.take(rules@.len() as int) =~= rules@);
    }
    match detail {
        None => None,
        Some(d) => Some(EdaRoutingResult { outbox_id: request.outbox_id.clone(), detail_type_output: d, destinations }),
    }
}

/// Positions of the events that some rule matches, in order.
pub open spec fn matched_positions(events: Seq<EventToRoute>) -> Seq<int>
    decreases events.len(),
{
    if events.len() == 0 {
        Seq::empty()
    } else {
        let earlier = matched_positions(events.drop_last());
        if last_match_detail(events.last().rules@) is Some {
            earlier.push(events.len() - 1)
        } else {
            earlier
        }
    }
}

/// Outbox ids of the events that no rule matches, in order.
pub open spec fn unmatched_ids(events: Seq<EventToRoute>) -> Seq<Seq<char>>
    decreases events.len(),
{
    if events.len() == 0 {
        Seq::empty()
    } else {
        let earlier = unmatched_ids(events.drop_last());
        if last_match_detail(events.last().rules@) is None {
            earlier.push(events.last().request.outbox_id@)
        } else {
            earlier
        }
    }
}

/// Positions are within the batch.
proof fn lemma_matched_positions_bounded(events: Seq<EventToRoute>)
    ensures
        forall|j: int| 0 <= j < matched_positions(events).len() ==> 0 <= #[trigger] matched_positions(events)[j] < events.len(),
    decreases events.len(),
{
    if events.len() > 0 {
        let earlier = events.drop_last();
        lemma_matched_positions_bounded(earlier);
        let p = matched_positions(events);
        assert forall|j: int| 0 <= j < p.len() implies 0 <= #[trigger] p[j] < events.len() by {
            if j < matched_positions(earlier).len() {
                assert(p[j] == matched_positions(earlier)[j]);
            }
        }
    }
}

/// Routes a batch: one routing per matched event, in order, and the ids of
/// the unmatched events, in order.
pub fn route_batch(events: &Vec<EventToRoute>) -> (r: EdaResponseJson)
    requires
        forall|i: int| 0 <= i < events@.len() ==> (#[trigger] events@[i]).request.cdc_payload_json@.len() <= usize::MAX / 2,
    ensures
        r.routing_results@.len() == matched_positions(events@).len(),
        forall|j: int| 0 <= j < r.routing_results@.len() ==> routed_as(
            #[trigger] r.routing_results@[j],
            events@[matched_positions(events@)[j]].request,
            events@[matched_positions(events@)[j]].rules@,
            events@[matched_positions(events@)[j]].webhooks@,
        ),
        r.unmatched_outbox_ids@.map_values(|s: String| s@) == unmatched_ids(events@),
{
    let mut routing_results: Vec<EdaRoutingResult> = Vec::new();
    let mut unmatched_outbox_ids: Vec<String> = Vec::new();
    let mut i: usize = 0;
    while i < events.len()
        invariant
            i <= events@.len(),
            forall|i: int| 0 <= i < events@.len() ==> (#[trigger] events@[i]).request.cdc_payload_json@.len() <= usize::MAX / 2,
            routing_results@.len() == matched_positions(events@.take(i as int)).len(),
            forall|j: int| 0 <= j < routing_results@.len() ==> routed_as(
                #[trigger] routing_results@[j],
                events@[matched_positions(events@.take(i as int))[j]].request,
                events@[matched_positions(events@.take(i as int))[j]].rules@,
                events@[matched_positions(events@.take(i as int))[j]].webhooks@,
            ),
            unmatched_outbox_ids@.map_values(|s: String| s@) == unmatched_ids(events@.take(i as int)),
        decreases events@.len() - i,
    {
        proof {
            assert(events@.take(i + 1).drop_last() =~= events@.take(i as int));
            assert(events@.take(i + 1).last() == events@[i as int]);
            lemma_matched_positions_bounded(events@.take(i as int));
        }
        let e = &events[i];
        let ghost before_pos = matched_positions(events@.take(i as int));
        let ghost before_ids = unmatched_outbox_ids@;
        match route_event(&e.request, &e.rules, &e.webhooks) {
            Some(res) => {
                routing_results.push(res);
                proof {
                    let pos = matched_positions(events@.take(i + 1));
                    assert(pos == before_pos.push(i as int));
                    assert forall|j: int| 0 <= j < routing_results@.len() implies routed_as(
                        #[trigger] routing_results@[j],
                        events@[pos[j]].request,
                        events@[pos[j]].rules@,
                        events@[pos[j]].webhooks@,
                    ) by {
                        if j < routing_results@.len() - 1 {
                            assert(pos[j] == before_pos[j]);
                            assert(events@.take(i as int)[before_pos[j]] == events@[before_pos[j]]);
                        }
                    }
                }
            },
            None => {
                unmatched_outbox_ids.push(e.request.outbox_id.clone());
                proof {
                    assert(unmatched_outbox_ids@.map_values(|s: String| s@)
                        =~= before_ids.map_values(|s: String| s@).push(events@[i as int].request.outbox_id@));
                }
            },
        }
        proof {
            let pos = matched_positions(events@.take(i + 1));
            assert forall|j: int| 0 <= j < routing_results@.len() implies
                events@.take(i + 1)[#[trigger] pos[j]] == events@[pos[j]] by {
                lemma_matched_positions_bounded(events@.take(i + 1));
            }
        }
        i = i + 1;
    }
    proof {
        assert(events@.take(events@.len() as int) =~= events@);
    }
    EdaResponseJson { routing_results, unmatched_outbox_ids }
}

/// The non-empty fields among `fields`, each trimmed, in order.
pub open spec fn trimmed_names(fields: Seq<Seq<char>>) -> Seq<Seq<char>>
    decreases fields.len(),
{
    if fields.len() == 0 {
        Seq::empty()
    } else {
        let earlier = trimmed_names(fields.drop_last());
        let t = trim(fields.last());
        if t.len() > 0 {
            earlier.push(t)
        } else {
            earlier
        }
    }
}

/// The tenants that the orphan watchdog sweeps: those of the comma-separated
/// setting, trimmed, empty ones left out; the local tenant `tnt_01` when
/// none remains.
pub open spec fn watchdog_tenant_list(setting: Option<Seq<char>>) -> Seq<Seq<char>> {
    let named = match setting {
        Some(s) => trimmed_names(split_on(s, ',')),
        None => Seq::empty(),
    };
    if named.len() == 0 {
        seq!["tnt_01"@]
    } else {
        named
    }
}

/// The tenants that the orphan watchdog sweeps, given the `ACTIVE_TENANTS`
/// setting when present.
pub fn watchdog_tenants(setting: Option<&str>) -> (r: Vec<String>)
    ensures
        r@.map_values(|s: String| s@) == watchdog_tenant_list(opt_text(setting)),
{
    let mut names: Vec<String> = Vec::new();
    if let Some(s) = setting {
        let fields = split_chars(s, ',');
        let mut i: usize = 0;
        assert(split_on(s@, ',').take(0) =~= Seq::<Seq<char>>::empty());
        while i < fields.len()
            invariant
                i <= fields@.len(),
                fields@.len() == split_on(s@, ',').len(),
                forall|k: int| 0 <= k < fields@.len() ==> #[trigger] fields@[k]@ == split_on(s@, ',')[k],
                names@.map_values(|x: String| x@) == trimmed_names(split_on(s@, ',').take(i as int)),
            decreases fields@.len() - i,
        {
            proof {
                assert(split_on(s@, ',').take(i + 1).drop_last() =~= split_on(s@, ',').take(i as int));
            }
            let t = trim_vec(&fields[i], 0, fields[i].len());
            proof {
                assert(fields@[i as int]@.subrange(0, fields@[i as int]@.len() as int) =~= fields@[i as int]@);
            }
            if t.len() > 0 {
                let ghost before = names@;
                names.push(string_from_chars(&t));
                assert(names@.map_values(|x: String| x@) =~= before.map_values(|x: String| x@).push(t@));
            }
            i = i + 1;
        }
        proof {
            assert(split_on(s@, ',').take(fields@.len() as int) =~= split_on(s@, ','));
        }
    }
    if names.len() == 0 {
        let mut d: Vec<String> = Vec::new();
        d.push(String::from_str("tnt_01"));
        assert(d@.map_values(|x: String| x@) =~= seq!["tnt_01"@]);
        d
    } else {
        names
    }
}

/// The running result of an orphan sweep: how many events were reset, and
/// one note per tenant that had any.
#[derive(Debug)]
pub struct ResetTally {
    pub reset_count: i32,
    pub reset_event_ids: Vec<String>,
}

/// The note of a tenant's reset: `tnt_<tenant>_count_<count>`.
pub open spec fn reset_note(tenant: Seq<char>, count: nat) -> Seq<char> {
    "tnt_"@ + tenant + "_count_"@ + digits_of(count)
}

impl ResetTally {
    /// Nothing reset yet.
    pub fn new() -> (r: ResetTally)
        ensures
            r.reset_count == 0,
            r.reset_event_ids@.len() == 0,
    {
        ResetTally { reset_count: 0, reset_event_ids: Vec::new() }
    }

    /// Takes the outcome of one tenant's sweep: a count above zero is added
    /// (as an `i32`) and noted; a failure or zero changes nothing.
    pub fn record(&mut self, tenant_id: &str, outcome: &Result<usize, String>)
        requires
            outcome matches Ok(c) ==> (c > 0 ==> i32::MIN <= old(self).reset_count + (c as i32) <= i32::MAX),
        ensures
            match outcome {
                Ok(c) => if *c > 0 {
                    &&& final(self).reset_count == old(self).reset_count + (*c as i32)
                    &&& final(self).reset_event_ids@.map_values(|x: String| x@) == old(self).reset_event_ids@.map_values(
                        |x: String| x@,
                    ).push(reset_note(tenant_id@, *c as nat))
                } else {
                    *final(self) == *old(self)
                },
                Err(_) => *final(self) == *old(self),
            },
    {
        if let Ok(c) = outcome {
            if *c > 0 {
                #[verifier::truncate]
                let add: i32 = *c as i32;
                self.reset_count = self.reset_count + add;
                let mut note = joined("tnt_", tenant_id);
                note.append("_count_");
                let digits = digits_text(*c as u64);
                note.append(string_from_chars(&digits).as_str());
                let ghost before = self.reset_event_ids@;
                self.reset_event_ids.push(note);
                assert(self.reset_event_ids@.map_values(|x: String| x@) =~= before.map_values(|x: String| x@).push(
                    reset_note(tenant_id@, *c as nat),
                ));
            }
        }
    }
}

/// What `serde_json::from_slice` reports of `bytes` read as a JSON value:
/// `None` when they are one, else the text of its error.
pub uninterp spec fn json_error_text(bytes: Seq<u8>) -> Option<Seq<char>>;

/// Calls `serde_json::from_slice` for a `serde_json::Value`: the result is
/// `None` when `bytes` hold one JSON value, else the error's text; which
/// bytes are accepted, and the text, are named and not spelled out.
#[verifier::external_body]
pub(crate) fn json_error_of(bytes: &Vec<u8>) -> (r: Option<String>)
    ensures
        match r {
            Some(t) => json_error_text(bytes@) == Some(t@),
            None => json_error_text(bytes@) is None,
        },
{
    match serde_json::from_slice::<serde_json::Value>(bytes.as_slice()) {
        Ok(_) => None,
        Err(e) => Some(e.to_string()),
    }
}

/// The message of an event whose payload is not JSON.
pub open spec fn bad_payload_message(outbox_id: Seq<char>, error: Seq<char>) -> Seq<char> {
    "Payload JSON inválido para outbox_id="@ + outbox_id + ": "@ + error
}

/// Checks that an event's change payload is JSON before it is routed; the
/// batch fails with `InvalidArgument` at the first event whose payload is not.
pub fn check_payload(request: &EdaMatchRequest) -> (r: Result<(), RpcError>)
    ensures
        match json_error_text(request.cdc_payload_json@) {
            None => r is Ok,
            Some(t) => r matches Err(e) && rpc_error_is(
                e,
                RpcCode::InvalidArgument,
                bad_payload_message(request.outbox_id@, t),
            ),
        },
{
    match json_error_of(&request.cdc_payload_json) {
        None => Ok(()),
        Some(t) => {
            let mut m = String::from_str("Payload JSON inválido para outbox_id=");
            m.append(request.outbox_id.as_str());
            m.append(": ");
            m.append(t.as_str());
            Err(RpcError { code: RpcCode::InvalidArgument, message: m })
        },
    }
}

} // verus!
