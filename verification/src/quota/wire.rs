//! The reservation ticket that clients carry between a reserve and its
//! reconciliation: `<tenant>:<id>`, with exactly one colon, and the
//! colon-separated fields of the tickets that older releases issued.
use vstd::prelude::*;
use vstd::string::StringExecFns;
use crate::text::{chars_of, slice_vec, split_chars, split_on, string_from_chars};

verus! {

/// `s` holds no colon.
pub open spec fn colon_free(s: Seq<char>) -> bool {
    forall|i: int| 0 <= i < s.len() ==> s[i] != ':'
}

/// The ticket of reservation `id` of `tenant`.
pub open spec fn wire_id_spec(tenant: Seq<char>, id: Seq<char>) -> Seq<char> {
    tenant + ":"@ + id
}

/// The colon at `k` is the only colon of `s`, and both sides of it are not empty.
pub open spec fn sole_colon_at(s: Seq<char>, k: int) -> bool {
    &&& 0 < k < s.len() - 1
    &&& s[k] == ':'
    &&& colon_free(s.take(k))
    &&& colon_free(s.skip(k + 1))
}

/// A ticket read back into its tenant and its id: defined when `s` has exactly
/// one colon with something on both sides.
pub open spec fn split_wire_spec(s: Seq<char>) -> Option<(Seq<char>, Seq<char>)> {
    if exists|k: int| sole_colon_at(s, k) {
        let k = choose|k: int| sole_colon_at(s, k);
        Some((s.take(k), s.skip(k + 1)))
    } else {
        None
    }
}

/// At most one position can hold the only colon.
pub proof fn lemma_sole_colon_unique(s: Seq<char>, k1: int, k2: int)
    requires
        sole_colon_at(s, k1),
        sole_colon_at(s, k2),
    ensures
        k1 == k2,
{
    if k2 < k1 {
        assert(s.take(k1)[k2] == s[k2]);
    } else if k1 < k2 {
        assert(s.skip(k1 + 1)[k2 - k1 - 1] == s[k2]);
    }
}

/// Reading back the ticket of a reservation gives its tenant and its id, when
/// neither is empty and neither holds a colon.
pub proof fn lemma_wire_round_trip(tenant: Seq<char>, id: Seq<char>)
    requires
        tenant.len() > 0,
        id.len() > 0,
        colon_free(tenant),
        colon_free(id),
    ensures
        split_wire_spec(wire_id_spec(tenant, id)) == Some((tenant, id)),
{
    reveal_strlit(":");
    let w = wire_id_spec(tenant, id);
    let k = tenant.len() as int;
    assert(w.take(k) =~= tenant);
    assert(w.skip(k + 1) =~= id);
    assert(w[k] == ':');
    assert(sole_colon_at(w, k));
    let c = choose|c: int| sole_colon_at(w, c);
    lemma_sole_colon_unique(w, c, k);
}

/// The ticket of a reservation: `<tenant>:<id>`.
pub fn wire_id(tenant_id: &str, id: &str) -> (r: String)
    ensures
        r@ == wire_id_spec(tenant_id@, id@),
{
    let mut r = String::from_str(tenant_id);
    r.append(":");
    r.append(id);
    r
}

/// Reads a ticket back into its tenant and its id; `None` when `wire` does not
/// have exactly one colon with something on both sides.
pub fn split_wire_id(wire: &str) -> (r: Option<(String, String)>)
    ensures
        match r {
            Some((t, id)) => split_wire_spec(wire@) == Some((t@, id@)),
            None => split_wire_spec(wire@) is None,
        },
{
    let s = chars_of(wire);
    let mut count: usize = 0;
    let mut first: usize = 0;
    let mut i: usize = 0;
    while i < s.len()
        invariant
            i <= s.len(),
            count <= i,
            count == 0 ==> colon_free(s@.take(i as int)),
            count >= 1 ==> first < i && s@[first as int] == ':' && colon_free(s@.take(first as int)),
            count == 1 ==> colon_free(s@.subrange(first + 1, i as int)),
            count >= 2 ==> exists|j: int| first < j < i && s@[j] == ':',
        decreases s.len() - i,
    {
        let ghost old_count = count;
        let ghost old_sub = s@.subrange(first + 1, i as int);
        if s[i] == ':' {
            if count == 0 {
                first = i;
                assert(colon_free(s@.take(i as int)));
            } else {
                assert(s@[i as int] == ':');
            }
            count = count + 1;
        }
        i = i + 1;
        proof {
            if count == 1 && old_count == 1 {
                assert(s@[i - 1] != ':');
                assert forall|q: int| 0 <= q < s@.subrange(first + 1, i as int).len() implies
                    #[trigger] s@.subrange(first + 1, i as int)[q] != ':' by {
                    if first + 1 + q < i - 1 {
                        assert(old_sub[q] == s@[first + 1 + q]);
                    }
                }
            }
            if count == 0 {
                assert forall|q: int| 0 <= q < s@.take(i as int).len() implies
                    #[trigger] s@.take(i as int)[q] != ':' by {
                    if q < i - 1 {
                        assert(s@.take(i - 1)[q] == s@[q]);
                    }
                }
            }
        }
    }
    if count == 1 && 0 < first && first + 1 < s.len() {
        proof {
            assert(s@.skip(first + 1) =~= s@.subrange(first + 1, s@.len() as int));
            assert(s@.take(s@.len() as int) =~= s@);
            assert(sole_colon_at(wire@, first as int));
            let k = choose|k: int| sole_colon_at(wire@, k);
            lemma_sole_colon_unique(wire@, k, first as int);
        }
        let t = slice_vec(&s, 0, first);
        let id = slice_vec(&s, first + 1, s.len());
        proof {
            assert(t@ =~= wire@.take(first as int));
            assert(id@ =~= wire@.skip(first + 1));
        }
        Some((string_from_chars(&t), string_from_chars(&id)))
    } else {
        proof {
            assert(s@.take(s@.len() as int) =~= s@);
            if exists|k: int| sole_colon_at(wire@, k) {
                let k = choose|k: int| sole_colon_at(wire@, k);
                if count == 0 {
                    assert(s@.take(s@.len() as int)[k] == s@[k]);
                } else if count >= 2 {
                    let j = choose|j: int| first < j < s@.len() && s@[j] == ':';
                    if k < first {
                        assert(s@.take(k)[0] == s@[0]);
                        assert(wire@.take(k) =~= s@.take(k));
                        assert(s@.take(first as int)[k] == s@[k]);
                    } else if k > first {
                        assert(s@.take(k)[first as int] == s@[first as int]);
                    } else {
                        assert(s@.skip(k + 1)[j - k - 1] == s@[j]);
                    }
                } else {
                    if k < first {
                        assert(s@.take(first as int)[k] == s@[k]);
                    } else if k > first {
                        assert(s@.take(k)[first as int] == s@[first as int]);
                    }
                }
            }
        }
        None
    }
}

/// The colon-separated fields of `s`, as `str::split(':')` yields them.
pub open spec fn colon_fields(s: Seq<char>) -> Seq<Seq<char>> {
    split_on(s, ':')
}

/// The fields of `s` between its colons.
pub fn colon_split(s: &str) -> (r: Vec<Vec<char>>)
    ensures
        r@.len() == colon_fields(s@).len(),
        forall|i: int| 0 <= i < r@.len() ==> #[trigger] r@[i]@ == colon_fields(s@)[i],
{
    split_chars(s, ':')
}

} // verus!
