//! The entity behind `FROM`, the `LIMIT`, and field-name cleaning.
use vstd::prelude::*;
use crate::text::{
    char_is_whitespace, chars_of, eq_chars, find_from, find_from_exec, first_from, is_digit,
    is_ident_char, is_whitespace, ident_end, lowercase, to_lowercase, matches_at, matches_at_exec,
    rfind, rfind_before, rfind_exec, slice_vec, span_while, string_from_chars, strip_quotes,
    strip_quotes_vec, trim, trim_vec,
};

verus! {

/// `from ` — the keyword that introduces the table reference.
pub open spec fn from_kw() -> Seq<char> {
    seq!['f', 'r', 'o', 'm', ' ']
}

/// `limit ` — the keyword that introduces the row cap.
pub open spec fn limit_kw() -> Seq<char> {
    seq!['l', 'i', 'm', 'i', 't', ' ']
}

/// Characters that end a table reference.
pub open spec fn ends_table_ref(c: char) -> bool {
    char_is_whitespace(c) || c == ')' || c == ';'
}

/// `s` with every trailing repetition of `suffix` removed (`str::trim_end_matches`).
pub open spec fn trim_suffix_all(s: Seq<char>, suffix: Seq<char>) -> Seq<char>
    decreases s.len(),
{
    if suffix.len() > 0 && s.len() >= suffix.len() && s.subrange(
        s.len() - suffix.len(),
        s.len() as int,
    ) == suffix {
        trim_suffix_all(s.subrange(0, s.len() - suffix.len()), suffix)
    } else {
        s
    }
}

/// The entity named by the table reference that follows the `from ` found at
/// position `p` of the lower-cased text `lw`: the reference runs up to the first
/// whitespace, `)` or `;`, loses any schema qualifier before its last `.`, and
/// then every trailing `_raw` and, after that, every trailing `_rollup`.
pub open spec fn entity_after(lw: Seq<char>, p: int) -> Seq<char> {
    let start = p + 5;
    let end = first_from(lw, start, |c: char| ends_table_ref(c));
    let table_ref = lw.subrange(start, end);
    let name = match rfind(table_ref, seq!['.']) {
        Some(d) => table_ref.skip(d + 1),
        None => table_ref,
    };
    trim_suffix_all(
        trim_suffix_all(name, seq!['_', 'r', 'a', 'w']),
        seq!['_', 'r', 'o', 'l', 'l', 'u', 'p'],
    )
}

/// A candidate entity is accepted when it is not empty, is not one of the
/// words `select` / `where` / `(`, and does not start with `(`.
pub open spec fn acceptable_entity(e: Seq<char>) -> bool {
    &&& e.len() > 0
    &&& e != seq!['s', 'e', 'l', 'e', 'c', 't']
    &&& e != seq!['w', 'h', 'e', 'r', 'e']
    &&& e != seq!['(']
    &&& e[0] != '('
}

/// The first acceptable entity after an occurrence of `from ` at or after `from`.
pub open spec fn entity_search(lw: Seq<char>, from: int) -> Option<Seq<char>>
    decreases lw.len() - from,
{
    if from < 0 || from > lw.len() {
        None
    } else {
        match find_from(lw, from_kw(), from) {
            None => None,
            Some(p) => if p < from || p + 5 > lw.len() {
                None
            } else if acceptable_entity(entity_after(lw, p)) {
                Some(entity_after(lw, p))
            } else {
                entity_search(lw, p + 5)
            },
        }
    }
}

/// The entity that `extract_entity_from_sql` reports for `sql`.
pub open spec fn sql_entity(sql: Seq<char>) -> Option<Seq<char>> {
    entity_search(lowercase(sql), 0)
}

/// Decimal value of a string of ASCII digits.
pub open spec fn digits_value(d: Seq<char>) -> nat
    decreases d.len(),
{
    if d.len() == 0 {
        0
    } else {
        digits_value(d.drop_last()) * 10 + ((d.last() as nat) - ('0' as nat)) as nat
    }
}

/// The `LIMIT` that `extract_limit_from_sql` reports: the digits that follow
/// the last `limit `, read as a `u32`; nothing when there is no such keyword,
/// no digit, or the number does not fit.
pub open spec fn sql_limit(sql: Seq<char>) -> Option<u32> {
    let lw = lowercase(sql);
    match rfind(lw, limit_kw()) {
        None => None,
        Some(i) => {
            let n = span_while(lw, i + 6, |c: char| is_digit(c));
            let d = lw.subrange(i + 6, i + 6 + n);
            if n == 0 || digits_value(d) > u32::MAX {
                None
            } else {
                Some(digits_value(d) as u32)
            }
        },
    }
}

/// A field name as written in an expression: trimmed, without quotes, and
/// without any qualifier up to its first `.`.
pub open spec fn clean_field(expr: Seq<char>) -> Seq<char> {
    let t = strip_quotes(trim(expr));
    match find_from(t, seq!['.'], 0) {
        Some(d) => t.skip(d + 1),
        None => t,
    }
}

/// The identifier that follows the first occurrence of `prefix` in `expr`,
/// or `expr` itself when `prefix` does not occur.
pub open spec fn cte_field(expr: Seq<char>, prefix: Seq<char>) -> Seq<char> {
    match find_from(expr, prefix, 0) {
        Some(i) => {
            let start = i + prefix.len();
            expr.subrange(start, start + span_while(expr, start, |c: char| is_ident_char(c)))
        },
        None => expr,
    }
}

/// The identifier that starts at the first occurrence of `prefix` in `expr`
/// (the prefix included), or `prefix` itself when it does not occur.
pub open spec fn cte_name(expr: Seq<char>, prefix: Seq<char>) -> Seq<char> {
    match find_from(expr, prefix, 0) {
        Some(i) => expr.subrange(i, i + span_while(expr, i, |c: char| is_ident_char(c))),
        None => prefix,
    }
}

/// The view of an optional string.
pub open spec fn opt_view(o: Option<String>) -> Option<Seq<char>> {
    match o {
        Some(s) => Some(s@),
        None => None,
    }
}

/// A position found by `find_from` is at or after the start and holds the pattern.
pub proof fn lemma_find_from_ge(s: Seq<char>, pat: Seq<char>, start: int)
    ensures
        find_from(s, pat, start) matches Some(p) ==> start <= p && matches_at(s, pat, p),
    decreases s.len() - start,
{
    if start < 0 || start + pat.len() > s.len() {
    } else if matches_at(s, pat, start) {
    } else {
        lemma_find_from_ge(s, pat, start + 1);
    }
}

/// A position found by `rfind_before` is below the bound and holds the pattern.
pub proof fn lemma_rfind_before_bounds(s: Seq<char>, pat: Seq<char>, b: int)
    ensures
        rfind_before(s, pat, b) matches Some(p) ==> 0 <= p < b && matches_at(s, pat, p),
    decreases b,
{
    if b > 0 && !matches_at(s, pat, b - 1) {
        lemma_rfind_before_bounds(s, pat, b - 1);
    }
}

/// Index of the first character at or after `i` that ends a table reference.
fn table_ref_end(lw: &Vec<char>, i: usize) -> (r: usize)
    requires
        i <= lw.len(),
    ensures
        r == first_from(lw@, i as int, |c: char| ends_table_ref(c)),
        i <= r <= lw.len(),
{
    let ghost p = |c: char| ends_table_ref(c);
    let mut j: usize = i;
    while j < lw.len()
        invariant
            i <= j <= lw.len(),
            first_from(lw@, i as int, p) == first_from(lw@, j as int, p),
            p == (|c: char| ends_table_ref(c)),
        decreases lw.len() - j,
    {
        let c = lw[j];
        if is_whitespace(c) || c == ')' || c == ';' {
            assert(p(lw@[j as int]));
            return j;
        }
        j = j + 1;
    }
    j
}

/// `s` with every trailing repetition of `suffix` removed.
fn trim_suffix_all_vec(s: Vec<char>, suffix: &Vec<char>) -> (r: Vec<char>)
    ensures
        r@ == trim_suffix_all(s@, suffix@),
{
    let mut cur = s;
    while suffix.len() > 0 && cur.len() >= suffix.len() && matches_at_exec(
        &cur,
        suffix,
        cur.len() - suffix.len(),
    )
        invariant
            trim_suffix_all(s@, suffix@) == trim_suffix_all(cur@, suffix@),
        decreases cur.len(),
    {
        let ghost old_cur = cur@;
        let n = cur.len() - suffix.len();
        cur = slice_vec(&cur, 0, n);
        proof {
            let st = old_cur.len() - suffix@.len();
            assert forall|k: int| 0 <= k < suffix@.len() implies #[trigger] old_cur.subrange(
                st,
                old_cur.len() as int,
            )[k] == suffix@[k] by {
                assert(old_cur[st + k] == suffix@[k]);
            }
            assert(old_cur.subrange(st, old_cur.len() as int) =~= suffix@);
            assert(cur@ =~= old_cur.subrange(0, st));
        }
    }
    proof {
        if suffix@.len() > 0 && cur@.len() >= suffix@.len() {
            if cur@.subrange(cur@.len() - suffix@.len(), cur@.len() as int) == suffix@ {
                let st = cur@.len() - suffix@.len();
                assert forall|k: int| 0 <= k < suffix@.len() implies #[trigger] cur@[st + k]
                    == suffix@[k] by {
                    assert(cur@.subrange(st, cur@.len() as int)[k] == cur@[st + k]);
                }
            }
        }
    }
    cur
}

/// The entity candidate after the `from ` at position `p`.
fn entity_candidate(lw: &Vec<char>, p: usize) -> (r: Vec<char>)
    requires
        matches_at(lw@, from_kw(), p as int),
    ensures
        r@ == entity_after(lw@, p as int),
{
    assert(from_kw().len() == 5);
    assert(lw@.len() == lw.len());
    let start = p + 5;
    let end = table_ref_end(lw, start);
    let table_ref = slice_vec(lw, start, end);
    let dot = vec!['.'];
    assert(dot@ =~= seq!['.']);
    let name = match rfind_exec(&table_ref, &dot) {
        Some(d) => {
            proof {
                lemma_rfind_before_bounds(table_ref@, dot@, table_ref@.len() + 1int);
            }
            let v = slice_vec(&table_ref, d + 1, table_ref.len());
            assert(v@ =~= table_ref@.skip(d + 1));
            v
        },
        None => table_ref,
    };
    let raw = vec!['_', 'r', 'a', 'w'];
    let rollup = vec!['_', 'r', 'o', 'l', 'l', 'u', 'p'];
    assert(raw@ =~= seq!['_', 'r', 'a', 'w']);
    assert(rollup@ =~= seq!['_', 'r', 'o', 'l', 'l', 'u', 'p']);
    let a = trim_suffix_all_vec(name, &raw);
    trim_suffix_all_vec(a, &rollup)
}

fn acceptable_entity_exec(e: &Vec<char>) -> (r: bool)
    ensures
        r == acceptable_entity(e@),
{
    if e.len() == 0 {
        return false;
    }
    let select = vec!['s', 'e', 'l', 'e', 'c', 't'];
    let where_kw = vec!['w', 'h', 'e', 'r', 'e'];
    let open = vec!['('];
    !eq_chars(e, &select) && !eq_chars(e, &where_kw) && !eq_chars(e, &open) && e[0] != '('
}

/// Extracts the entity name from the SQL that the query compiler emits.
///
/// Returns the first acceptable table reference after a `FROM`, lower-cased,
/// without schema qualifier and without the `_raw` / `_rollup` suffixes.
pub fn extract_entity_from_sql(sql: &str) -> (r: Option<String>)
    ensures
        opt_view(r) == sql_entity(sql@),
{
    let low = to_lowercase(sql);
    let lw = chars_of(low.as_str());
    let kw = vec!['f', 'r', 'o', 'm', ' '];
    assert(kw@ =~= from_kw());
    let mut search_pos: usize = 0;
    while search_pos <= lw.len()
        invariant
            lw@ == lowercase(sql@),
            kw@ == from_kw(),
            entity_search(lw@, 0) == entity_search(lw@, search_pos as int),
        decreases lw.len() + 1 - search_pos,
    {
        match find_from_exec(&lw, &kw, search_pos) {
            None => {
                return None;
            },
            Some(p) => {
                proof {
                    lemma_find_from_ge(lw@, kw@, search_pos as int);
                }
                let e = entity_candidate(&lw, p);
                if acceptable_entity_exec(&e) {
                    return Some(string_from_chars(&e));
                }
                search_pos = p + 5;
            },
        }
    }
    None
}

/// Appending a digit multiplies the value by ten and adds the digit.
pub proof fn lemma_digits_value_push(d: Seq<char>, c: char)
    ensures
        digits_value(d.push(c)) == digits_value(d) * 10 + ((c as nat) - ('0' as nat)) as nat,
{
    assert(d.push(c).drop_last() =~= d);
}

/// A prefix of a digit string is worth no more than the whole.
pub proof fn lemma_digits_value_mono(d: Seq<char>, k: int)
    requires
        0 <= k <= d.len(),
        forall|i: int| 0 <= i < d.len() ==> is_digit(#[trigger] d[i]),
    ensures
        digits_value(d.take(k)) <= digits_value(d),
    decreases d.len() - k,
{
    if k < d.len() {
        assert(d.drop_last().take(k) =~= d.take(k));
        lemma_digits_value_mono(d.drop_last(), k);
        let v = digits_value(d.drop_last());
        assert(v <= v * 10) by (nonlinear_arith);
    } else {
        assert(d.take(k) =~= d);
    }
}

/// Extracts the `LIMIT` of the SQL: the digits after the last `limit `.
///
/// `None` when there is no such keyword, when no digit follows it, or when
/// the number does not fit in a `u32`.
pub fn extract_limit_from_sql(sql: &str) -> (r: Option<u32>)
    ensures
        r == sql_limit(sql@),
{
    let low = to_lowercase(sql);
    let lw = chars_of(low.as_str());
    let kw = vec!['l', 'i', 'm', 'i', 't', ' '];
    assert(kw@ =~= limit_kw());
    match rfind_exec(&lw, &kw) {
        None => None,
        Some(i) => {
            proof {
                lemma_rfind_before_bounds(lw@, kw@, lw@.len() + 1int);
                assert(matches_at(lw@, kw@, i as int));
                assert(kw@.len() == 6);
                assert(lw@.len() == lw.len());
            }
            let ghost p = |c: char| is_digit(c);
            let start = i + 6;
            let mut j: usize = start;
            let mut acc: u64 = 0;
            while j < lw.len() && '0' <= lw[j] && lw[j] <= '9'
                invariant
                    start <= j <= lw.len(),
                    span_while(lw@, start as int, p) == (j - start) + span_while(lw@, j as int, p),
                    p == (|c: char| is_digit(c)),
                    acc == digits_value(lw@.subrange(start as int, j as int)),
                    acc <= u32::MAX,
                    forall|k: int| start <= k < j ==> is_digit(#[trigger] lw@[k]),
                    lw@ == lowercase(sql@),
                    rfind(lw@, limit_kw()) == Some(i as int),
                    start == i + 6,
                decreases lw.len() - j,
            {
                assert(p(lw@[j as int]));
                let dv: u64 = (lw[j] as u32 - '0' as u32) as u64;
                proof {
                    lemma_digits_value_push(lw@.subrange(start as int, j as int), lw@[j as int]);
                    assert(lw@.subrange(start as int, j as int).push(lw@[j as int])
                        =~= lw@.subrange(start as int, j + 1));
                }
                assert(acc * 10 + dv <= 4294967295u64 * 10 + 9) by (nonlinear_arith)
                    requires acc <= 4294967295u64, dv <= 9;
                let next: u64 = acc * 10 + dv;
                if next > 4294967295u64 {
                    proof {
                        let n = span_while(lw@, start as int, p);
                        lemma_span_while_all(lw@, j + 1, p);
                        lemma_span_while_all(lw@, start as int, p);
                        assert(n >= j + 1 - start);
                        let full = lw@.subrange(start as int, start + n);
                        assert(full.take(j + 1 - start) =~= lw@.subrange(start as int, j + 1));
                        assert forall|k: int| 0 <= k < full.len() implies is_digit(#[trigger] full[k]) by {
                            assert(p(lw@[start + k]));
                        }
                        lemma_digits_value_mono(full, j + 1 - start);
                        assert(digits_value(lw@.subrange(start as int, j + 1)) == next);
                        assert(digits_value(full) > u32::MAX);
                        assert(n != 0);
                    }
                    return None;
                }
                acc = next;
                j = j + 1;
            }
            if j == start {
                None
            } else {
                Some(acc as u32)
            }
        },
    }
}

/// Every character inside the span counted by `span_while` satisfies `p`.
pub proof fn lemma_span_while_all(s: Seq<char>, i: int, p: spec_fn(char) -> bool)
    ensures
        forall|k: int| i <= k < i + span_while(s, i, p) ==> p(#[trigger] s[k]),
        0 <= span_while(s, i, p),
        i >= 0 && i <= s.len() ==> i + span_while(s, i, p) <= s.len(),
    decreases s.len() - i,
{
    if !(i < 0 || i >= s.len() || !p(s[i])) {
        lemma_span_while_all(s, i + 1, p);
    }
}

/// Cleans a field reference: trims it, drops quotes, and drops any qualifier
/// up to the first `.`.
pub fn clean_expr_field(expr: &str) -> (r: String)
    ensures
        r@ == clean_field(expr@),
{
    let s = chars_of(expr);
    let t0 = trim_vec(&s, 0, s.len());
    assert(s@.subrange(0, s@.len() as int) =~= s@);
    let t = strip_quotes_vec(&t0);
    let dot = vec!['.'];
    assert(dot@ =~= seq!['.']);
    match find_from_exec(&t, &dot, 0) {
        Some(d) => {
            proof {
                lemma_find_from_ge(t@, dot@, 0);
                assert(t@.len() == t.len());
            }
            let v = slice_vec(&t, d + 1, t.len());
            assert(v@ =~= t@.skip(d + 1));
            string_from_chars(&v)
        },
        None => string_from_chars(&t),
    }
}

/// The identifier that follows `prefix` in `expr` (`expr` when `prefix` is absent).
pub fn clean_cte_field(expr: &str, prefix: &str) -> (r: String)
    ensures
        r@ == cte_field(expr@, prefix@),
{
    let e = chars_of(expr);
    let p = chars_of(prefix);
    match find_from_exec(&e, &p, 0) {
        Some(i) => {
            proof {
                lemma_find_from_ge(e@, p@, 0);
            }
            let start = i + p.len();
            let end = ident_end(&e, start);
            proof {
                lemma_span_while_all(e@, start as int, |c: char| is_ident_char(c));
            }
            let v = slice_vec(&e, start, end);
            string_from_chars(&v)
        },
        None => string_from_chars(&e),
    }
}

/// The identifier that starts where `prefix` first occurs in `expr`
/// (`prefix` when it is absent).
pub fn extract_cte_name(expr: &str, prefix: &str) -> (r: String)
    ensures
        r@ == cte_name(expr@, prefix@),
{
    let e = chars_of(expr);
    let p = chars_of(prefix);
    match find_from_exec(&e, &p, 0) {
        Some(i) => {
            proof {
                lemma_find_from_ge(e@, p@, 0);
            }
            let end = ident_end(&e, i);
            proof {
                lemma_span_while_all(e@, i as int, |c: char| is_ident_char(c));
            }
            let v = slice_vec(&e, i, end);
            string_from_chars(&v)
        },
        None => string_from_chars(&p),
    }
}

} // verus!
