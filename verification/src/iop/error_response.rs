//! What an error response tells the client: a correlation id derived from
//! the trace, and a context from which the model's sensitive fields are
//! redacted.
use vstd::prelude::*;
use crate::codice::EntityModel;
use crate::text::{chars_of, joined, same_text, slice_vec, string_from_chars};

verus! {

/// The correlation id of a trace: `REQ-` and the first eight characters of
/// the trace id (all of it when shorter).
pub open spec fn correlation_spec(trace_id: Seq<char>) -> Seq<char> {
    "REQ-"@ + trace_id.take(if trace_id.len() < 8 { trace_id.len() as int } else { 8 })
}

/// The correlation id of a trace whose first characters are ASCII (trace
/// ids are hexadecimal).
pub fn correlation_id(trace_id: &str) -> (r: String)
    requires
        forall|i: int| 0 <= i < trace_id@.len() && i < 8 ==> (trace_id@[i] as u32) < 128,
    ensures
        r@ == correlation_spec(trace_id@),
{
    let c = chars_of(trace_id);
    let n: usize = if c.len() < 8 {
        c.len()
    } else {
        8
    };
    let head = slice_vec(&c, 0, n);
    assert(head@ =~= trace_id@.take(n as int));
    joined("REQ-", string_from_chars(&head).as_str())
}

/// A context key names a sensitive attribute of the model.
pub open spec fn is_sensitive_key(model: EntityModel, key: Seq<char>) -> bool {
    exists|i: int|
        0 <= i < model.attributes@.len() && (#[trigger] model.attributes@[i]).sensitive
            && model.attributes@[i].name@ == key
}

fn sensitive(model: &EntityModel, key: &str) -> (r: bool)
    ensures
        r == is_sensitive_key(*model, key@),
{
    let mut i: usize = 0;
    while i < model.attributes.len()
        invariant
            i <= model.attributes@.len(),
            forall|k: int| 0 <= k < i ==> !((#[trigger] model.attributes@[k]).sensitive && model.attributes@[k].name@ == key@),
        decreases model.attributes@.len() - i,
    {
        if model.attributes[i].sensitive && same_text(model.attributes[i].name.as_str(), key) {
            return true;
        }
        i = i + 1;
    }
    false
}

/// The entries of an error context as the client sees them: with a model,
/// the value of every entry whose key names a sensitive attribute is
/// redacted (`None`); the others, and all entries without a model, are kept.
pub fn sanitize_context<V>(model: Option<&EntityModel>, entries: Vec<(String, V)>) -> (r: Vec<(String, Option<V>)>)
    ensures
        r@.len() == entries@.len(),
        forall|i: int|
            0 <= i < r@.len() ==> (#[trigger] r@[i]).0 == entries@[i].0 && r@[i].1 == match model {
                Some(m) => if is_sensitive_key(*m, entries@[i].0@) {
                    None
                } else {
                    Some(entries@[i].1)
                },
                None => Some(entries@[i].1),
            },
{
    let mut out: Vec<(String, Option<V>)> = Vec::new();
    let mut rest = entries;
    let ghost all = rest@;
    let mut i: usize = 0;
    let n = rest.len();
    while i < n
        invariant
            i <= n,
            n == all.len(),
            rest@ == all.skip(i as int),
            out@.len() == i,
            forall|k: int|
                0 <= k < i ==> (#[trigger] out@[k]).0 == all[k].0 && out@[k].1 == match model {
                    Some(m) => if is_sensitive_key(*m, all[k].0@) {
                        None
                    } else {
                        Some(all[k].1)
                    },
                    None => Some(all[k].1),
                },
        decreases n - i,
    {
        let (key, value) = rest.remove(0);
        assert(all.skip(i as int)[0] == all[i as int]);
        assert(rest@ =~= all.skip(i + 1));
        let redact = match model {
            Some(m) => sensitive(m, key.as_str()),
            None => false,
        };
        if redact {
            out.push((key, None));
        } else {
            out.push((key, Some(value)));
        }
        i = i + 1;
    }
    out
}

} // verus!
