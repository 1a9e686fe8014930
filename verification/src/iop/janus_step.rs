//! The last step of the ingest pipeline hands the mutation to the write
//! router; what the router answers is kept in the request under `result`.
use vstd::prelude::*;
use crate::handlers::{key_index, put_field, put_field_exec, JsonValue};
use crate::text::same_text;

verus! {

/// `into` with each field of `from` set on it, in order.
pub open spec fn merged_fields(into: Seq<(String, JsonValue)>, from: Seq<(String, JsonValue)>) -> Seq<(String, JsonValue)>
    decreases from.len(),
{
    if from.len() == 0 {
        into
    } else {
        put_field(merged_fields(into, from.drop_last()), from.last().0, from.last().1)
    }
}

/// `after` is the request `before` once the router's answer `result` is
/// kept: a request without `result` gains it as its last field; when both
/// its `result` and the answer are objects, the answer's fields are set on
/// the one there, in order; otherwise the request is unchanged.
pub open spec fn result_kept(before: Seq<(String, JsonValue)>, result: JsonValue, after: Seq<(String, JsonValue)>) -> bool {
    match key_index(before, "result"@) {
        None => {
            &&& after.len() == before.len() + 1
            &&& after.take(before.len() as int) == before
            &&& after.last().0@ == "result"@
            &&& after.last().1 == result
        },
        Some(j) => if before[j].1 is Object && result is Object {
            &&& after.len() == before.len()
            &&& forall|i: int| 0 <= i < before.len() && i != j ==> after[i] == before[i]
            &&& after[j].0 == before[j].0
            &&& after[j].1 matches JsonValue::Object(m) && m@ == merged_fields(
                before[j].1->Object_0@,
                result->Object_0@,
            )
        } else {
            after == before
        },
    }
}

fn merge_into(into: &mut Vec<(String, JsonValue)>, from: Vec<(String, JsonValue)>)
    ensures
        final(into)@ == merged_fields(old(into)@, from@),
{
    let ghost all = from@;
    let ghost start = into@;
    let mut rest = from;
    let mut i: usize = 0;
    let total = rest.len();
    while rest.len() > 0
        invariant
            all.len() == total,
            i + rest@.len() == all.len(),
            rest@ == all.skip(i as int),
            into@ == merged_fields(start, all.take(i as int)),
        decreases rest@.len(),
    {
        let (k, v) = rest.remove(0);
        proof {
            assert(all.take(i + 1).drop_last() =~= all.take(i as int));
            assert(all.take(i + 1).last() == all[i as int]);
            assert(rest@ =~= all.skip(i + 1));
        }
        put_field_exec(into, k, v);
        i = i + 1;
    }
    proof {
        assert(all.take(i as int) =~= all);
    }
}

/// Keeps the router's answer `result` in the request's fields, as the
/// pipeline's last step does before the reply is normalised.
pub fn keep_route_result(request: &mut Vec<(String, JsonValue)>, result: JsonValue)
    ensures
        result_kept(old(request)@, result, final(request)@),
{
    let mut j: usize = 0;
    while j < request.len()
        invariant
            j <= request@.len(),
            request@ == old(request)@,
            forall|i: int| 0 <= i < j ==> request@[i].0@ != "result"@,
        decreases request@.len() - j,
    {
        if same_text(request[j].0.as_str(), "result") {
            proof {
                crate::handlers::lemma_key_index_found(request@, "result"@, j as int);
            }
            let ghost before = request@;
            let (k, v) = request.remove(j);
            match (v, result) {
                (JsonValue::Object(mut fields), JsonValue::Object(extra)) => {
                    merge_into(&mut fields, extra);
                    request.insert(j, (k, JsonValue::Object(fields)));
                    proof {
                        assert forall|i: int| 0 <= i < before.len() && i != j implies request@[i] == before[i] by {
                            if i < j {
                                assert(request@[i] == before.remove(j as int)[i]);
                            } else {
                                assert(request@[i] == before.remove(j as int)[i - 1]);
                            }
                        }
                    }
                },
                (other, _) => {
                    request.insert(j, (k, other));
                    proof {
                        assert(request@ =~= before);
                    }
                },
            }
            return;
        }
        j = j + 1;
    }
    proof {
        crate::handlers::lemma_key_index_none(request@, "result"@);
    }
    let ghost before = request@;
    request.push((String::from_str("result"), result));
    proof {
        assert(request@.take(before.len() as int) =~= before);
    }
}

} // verus!
