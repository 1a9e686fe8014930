//! Support for listing entity ids: filter validation against the schema and
//! deterministic truncation of the result.
use vstd::prelude::*;
use vstd::relations::sorted_by;
use crate::codice::{attr_type_is_avet_indexable, avet_indexable, EntityModel};
use crate::errors::{DomainError, ErrorCode};
use crate::order::{lex_le, lex_le_exec, lex_rel, lemma_lex_total_ordering, lemma_sorted_views_unique, sorted_views};
use crate::text::chars_of;
use vstd::string::StringExecFns;

verus! {

broadcast use vstd::seq_lib::group_to_multiset_ensures;

/// Index of the first attribute of `attrs`, from `k` on, named `name`.
pub open spec fn attr_index(attrs: Seq<crate::codice::AttributeDescriptor>, name: Seq<char>, k: int) -> Option<int>
    decreases attrs.len() - k,
{
    if k < 0 || k >= attrs.len() {
        None
    } else if attrs[k].name@ == name {
        Some(k)
    } else {
        attr_index(attrs, name, k + 1)
    }
}

/// A filter name is acceptable for `model` when an attribute of that name
/// exists and its type is value-indexed.
pub open spec fn filter_ok(model: EntityModel, name: Seq<char>) -> bool {
    match attr_index(model.attributes@, name, 0) {
        Some(k) => avet_indexable(model.attributes@[k].attr_type),
        None => false,
    }
}

/// Index of the first name of `names`, from `k` on, that is not acceptable.
pub open spec fn first_bad_filter(model: EntityModel, names: Seq<&str>, k: int) -> Option<int>
    decreases names.len() - k,
{
    if k < 0 || k >= names.len() {
        None
    } else if !filter_ok(model, names[k]@) {
        Some(k)
    } else {
        first_bad_filter(model, names, k + 1)
    }
}

/// The message for a filter on an attribute that does not exist.
pub open spec fn unknown_attr_detail(name: Seq<char>, entity: Seq<char>) -> Seq<char> {
    "'"@ + name + "' no es un atributo de '"@ + entity + "'"@
}

/// The message for a filter on an attribute that is not value-indexed.
pub open spec fn not_indexable_detail(name: Seq<char>) -> Seq<char> {
    "'"@ + name + "' es de tipo no indexable en AVET: no se puede filtrar por el"@
}

fn attr_position(model: &EntityModel, name: &str) -> (r: Option<usize>)
    ensures
        match r {
            Some(k) => attr_index(model.attributes@, name@, 0) == Some(k as int) && k < model.attributes.len(),
            None => attr_index(model.attributes@, name@, 0) is None,
        },
{
    let n = chars_of(name);
    let mut k: usize = 0;
    while k < model.attributes.len()
        invariant
            k <= model.attributes.len(),
            n@ == name@,
            attr_index(model.attributes@, name@, 0) == attr_index(model.attributes@, name@, k as int),
        decreases model.attributes.len() - k,
    {
        let a = chars_of(model.attributes[k].name.as_str());
        if crate::text::eq_chars(&a, &n) {
            return Some(k);
        }
        k = k + 1;
    }
    None
}

/// Validates the filters of a listing against the entity schema.
///
/// Every filter must name an attribute of the model whose type is value-indexed
/// (not `Bytes`, not `Array`); otherwise the first offending filter is
/// rejected with `JANUS_400`, saying which attribute and why.
pub fn validate_list_filters(model: &EntityModel, filter_names: &[&str]) -> (r: Result<(), DomainError>)
    ensures
        match first_bad_filter(*model, filter_names@, 0) {
            None => r is Ok,
            Some(k) => {
                &&& r is Err
                &&& r->Err_0.code == ErrorCode::Janus400
                &&& r->Err_0.detail@ == if attr_index(model.attributes@, filter_names@[k]@, 0) is None {
                    unknown_attr_detail(filter_names@[k]@, model.entity@)
                } else {
                    not_indexable_detail(filter_names@[k]@)
                }
            },
        },
{
    let mut i: usize = 0;
    while i < filter_names.len()
        invariant
            i <= filter_names.len(),
            first_bad_filter(*model, filter_names@, 0) == first_bad_filter(*model, filter_names@, i as int),
        decreases filter_names.len() - i,
    {
        let name: &str = filter_names[i];
        match attr_position(model, name) {
            None => {
                let mut d = String::from_str("'");
                d.append(name);
                d.append("' no es un atributo de '");
                d.append(model.entity.as_str());
                d.append("'");
                return Err(DomainError::new(ErrorCode::Janus400, d));
            },
            Some(k) => {
                if !attr_type_is_avet_indexable(&model.attributes[k].attr_type) {
                    let mut d = String::from_str("'");
                    d.append(name);
                    d.append("' es de tipo no indexable en AVET: no se puede filtrar por el");
                    return Err(DomainError::new(ErrorCode::Janus400, d));
                }
            },
        }
        i = i + 1;
    }
    Ok(())
}

/// The view of a list of strings.
pub open spec fn views(v: Seq<String>) -> Seq<Seq<char>> {
    v.map_values(|s: String| s@)
}

/// The listing that `sort_and_truncate` leaves: the ids in lexicographic
/// order, cut to the first `limit`.
pub open spec fn sorted_prefix(ids: Seq<Seq<char>>, limit: int) -> Seq<Seq<char>> {
    let s = sorted_views(ids);
    if s.len() > limit { s.take(limit) } else { s }
}

/// Sorts the ids lexicographically and keeps the first `limit`; returns
/// whether any were left out.
///
/// Sorting first makes the cut deterministic: the same set of ids, in any
/// order, keeps the same ids.
pub fn sort_and_truncate(ids: &mut Vec<String>, limit: usize) -> (truncated: bool)
    ensures
        views(final(ids)@) == sorted_prefix(views(old(ids)@), limit as int),
        truncated == (old(ids)@.len() > limit),
{
    let ghost input = views(ids@);
    let mut sorted: Vec<String> = Vec::new();
    let mut keys: Vec<Vec<char>> = Vec::new();
    let mut i: usize = 0;
    while i < ids.len()
        invariant
            i <= ids.len(),
            input == views(ids@),
            sorted@.len() == keys@.len(),
            forall|k: int| 0 <= k < keys@.len() ==> (#[trigger] keys@[k])@ == sorted@[k]@,
            sorted_by(views(sorted@), lex_rel()),
            views(sorted@).to_multiset() == input.take(i as int).to_multiset(),
        decreases ids.len() - i,
    {
        let s = ids[i].clone();
        let key = chars_of(s.as_str());
        let mut pos: usize = 0;
        while pos < keys.len() && lex_le_exec(&keys[pos], &key)
            invariant
                pos <= keys.len(),
                forall|k: int| 0 <= k < pos ==> lex_le((#[trigger] keys@[k])@, key@),
            decreases keys.len() - pos,
        {
            pos = pos + 1;
        }
        let ghost before = views(sorted@);
        let ghost old_keys = keys@;
        proof {
            lemma_lex_total_ordering();
            assert forall|k: int| pos <= k < keys@.len() implies lex_le(key@, (#[trigger] keys@[k])@) by {
                let kp = keys@[pos as int]@;
                assert(!lex_le(kp, key@));
                assert((lex_rel())(key@, kp) || (lex_rel())(kp, key@));
                if k > pos {
                    assert(before[pos as int] == kp);
                    assert(before[k] == keys@[k]@);
                    assert((lex_rel())(before[pos as int], before[k]));
                    assert((lex_rel())(key@, kp) && (lex_rel())(kp, keys@[k]@));
                }
            }
        }
        sorted.insert(pos, s);
        keys.insert(pos, key);
        proof {
            assert(views(sorted@) =~= before.insert(pos as int, key@));
            assert(ids@[i as int]@ == key@);
            assert(input.take(i + 1) =~= input.take(i as int).push(key@));
            assert forall|a: int, b: int| 0 <= a < b < views(sorted@).len() implies (lex_rel())(
                #[trigger] views(sorted@)[a],
                #[trigger] views(sorted@)[b],
            ) by {
                let vs = views(sorted@);
                if a < pos && b == pos {
                    assert(vs[a] == keys@[a]@);
                } else if a == pos && b > pos {
                    assert(vs[b] == keys@[b]@);
                } else if a < pos && b > pos {
                    assert(before[a] == keys@[a]@);
                    assert(before[b - 1] == old_keys[b - 1]@);
                    assert(lex_le(before[a], key@));
                    assert(lex_le(key@, before[b - 1]));
                    assert((lex_rel())(before[a], key@) && (lex_rel())(key@, before[b - 1]));
                } else if b < pos {
                    assert((lex_rel())(before[a], before[b]));
                } else {
                    assert((lex_rel())(before[a - 1], before[b - 1]));
                }
            }
        }
        i = i + 1;
    }
    proof {
        assert(input.take(ids@.len() as int) =~= input);
        lemma_sorted_views_unique(views(sorted@), input);
    }
    assert(views(sorted@).len() == input.len()) by {
        assert(views(sorted@).to_multiset().len() == views(sorted@).len());
        assert(input.to_multiset().len() == input.len());
    }
    let truncated = sorted.len() > limit;
    if truncated {
        let ghost full = views(sorted@);
        sorted.truncate(limit);
        assert(views(sorted@) =~= full.take(limit as int));
    }
    *ids = sorted;
    truncated
}

/// Sorting and truncating depends only on which ids there are: two lists with
/// the same ids, in any order, are cut to the same listing.
pub proof fn lemma_truncation_is_deterministic(a: Seq<Seq<char>>, b: Seq<Seq<char>>, limit: int)
    requires
        a.to_multiset() == b.to_multiset(),
    ensures
        sorted_prefix(a, limit) == sorted_prefix(b, limit),
{
    lemma_lex_total_ordering();
    a.lemma_sort_by_ensures(lex_rel());
    b.lemma_sort_by_ensures(lex_rel());
    lemma_sorted_views_unique(sorted_views(a), b);
}

/// What `sort_and_truncate` keeps is sorted, holds no more than `limit`
/// ids, and every id it keeps was in the input.
pub proof fn lemma_truncation_sorted_subset(ids: Seq<Seq<char>>, limit: int)
    requires
        0 <= limit,
    ensures
        sorted_by(sorted_prefix(ids, limit), lex_rel()),
        sorted_prefix(ids, limit).len() <= limit,
        sorted_prefix(ids, limit).len() == if ids.len() > limit { limit } else { ids.len() as int },
        forall|x: Seq<char>| sorted_prefix(ids, limit).contains(x) ==> ids.contains(x),
{
    lemma_lex_total_ordering();
    ids.lemma_sort_by_ensures(lex_rel());
    let s = sorted_views(ids);
    assert(s.len() == ids.len()) by {
        assert(s.to_multiset().len() == ids.to_multiset().len());
    }
    let p = sorted_prefix(ids, limit);
    assert forall|x: Seq<char>| p.contains(x) implies ids.contains(x) by {
        let k = choose|k: int| 0 <= k < p.len() && p[k] == x;
        assert(s.contains(x)) by {
            assert(s[k] == x);
        }
        assert(s.to_multiset().count(x) > 0);
    }
}

} // verus!
