//! The named sub-queries of a `WITH` clause and the final `SELECT`.
use vstd::prelude::*;
use crate::text::{
    char_is_whitespace, chars_of, eq_chars, ident_end, is_ident_char, is_whitespace, lower_char,
    lower_seq, skip_ws, slice_vec, span_while, string_from_chars, to_lower, trim, trim_start,
    trim_vec,
};
use crate::sql_parse::entity::lemma_span_while_all;

verus! {

/// One named sub-query: its name and its SQL.
pub type NamedQuery = (Seq<char>, Seq<char>);

/// Index of the first entry of `acc` named `name`, at or after `k`.
pub open spec fn index_of_name(acc: Seq<NamedQuery>, name: Seq<char>, k: int) -> Option<int>
    decreases acc.len() - k,
{
    if k < 0 || k >= acc.len() {
        None
    } else if acc[k].0 == name {
        Some(k)
    } else {
        index_of_name(acc, name, k + 1)
    }
}

/// `acc` with `name` bound to `query`: the existing entry replaced, or a new
/// one appended — what a map insert does, keeping first-insertion order.
pub open spec fn upsert(acc: Seq<NamedQuery>, name: Seq<char>, query: Seq<char>) -> Seq<NamedQuery> {
    match index_of_name(acc, name, 0) {
        Some(k) => acc.update(k, (name, query)),
        None => acc.push((name, query)),
    }
}

/// Whitespace or comma, the separators between sub-queries.
pub open spec fn is_ws_or_comma(c: char) -> bool {
    char_is_whitespace(c) || c == ','
}

/// Where the scan of a parenthesised body that starts at `i` with `depth`
/// parentheses open stops, and the depth left: it stops past the `)` that
/// brings the depth to zero, or at the end of the text.
pub open spec fn paren_scan(c: Seq<char>, i: int, depth: int) -> (int, int)
    decreases c.len() - i,
{
    if i < 0 || i >= c.len() || depth == 0 {
        (i, depth)
    } else if c[i] == '(' {
        paren_scan(c, i + 1, depth + 1)
    } else if c[i] == ')' {
        paren_scan(c, i + 1, depth - 1)
    } else {
        paren_scan(c, i + 1, depth)
    }
}

/// Reads `name AS (body)` definitions from position `i` of `c`, separated by
/// commas, binding each name to its trimmed body in `acc`; after the last one,
/// the rest of the text, trimmed, is the final query. Nothing when a
/// definition is malformed or the text ends before the final query.
pub open spec fn cte_loop(c: Seq<char>, i: int, acc: Seq<NamedQuery>) -> Option<(Seq<NamedQuery>, Seq<char>)>
    decreases c.len() - i,
{
    let i1 = i + span_while(c, i, |c: char| is_ws_or_comma(c));
    if i < 0 || i1 >= c.len() {
        None
    } else {
        let i2 = i1 + span_while(c, i1, |c: char| is_ident_char(c));
        let name = trim(c.subrange(i1, i2));
        let i3 = i2 + span_while(c, i2, |c: char| char_is_whitespace(c));
        if name.len() == 0 {
            None
        } else if !(i3 + 2 <= c.len() && lower_char(c[i3]) == 'a' && lower_char(c[i3 + 1]) == 's') {
            None
        } else {
            let i4 = (i3 + 2) + span_while(c, i3 + 2, |c: char| char_is_whitespace(c));
            if !(0 <= i4 < c.len() && c[i4] == '(') {
                None
            } else {
                let scan = paren_scan(c, i4 + 1, 1);
                let e = scan.0;
                if scan.1 != 0 || e < i4 + 2 || e > c.len() {
                    None
                } else {
                    let acc2 = upsert(acc, name, trim(c.subrange(i4 + 1, e - 1)));
                    let i6 = e + span_while(c, e, |c: char| char_is_whitespace(c));
                    if i6 < c.len() && c[i6] == ',' {
                        if i6 + 1 <= i {
                            None
                        } else {
                            cte_loop(c, i6 + 1, acc2)
                        }
                    } else {
                        Some((acc2, trim(c.skip(i6))))
                    }
                }
            }
        }
    }
}

/// `with ` — the keyword that opens the clause.
pub open spec fn with_kw() -> Seq<char> {
    seq!['w', 'i', 't', 'h', ' ']
}

/// The sub-queries and the final query that `parse_cte_queries` reports:
/// nothing unless the text, after its leading whitespace, starts with `with `
/// in any case.
pub open spec fn cte_queries(sql: Seq<char>) -> Option<(Seq<NamedQuery>, Seq<char>)> {
    let t = lower_seq(trim_start(sql));
    if !(t.len() >= 5 && t.take(5) == with_kw()) {
        None
    } else {
        let i0 = span_while(sql, 0, |c: char| char_is_whitespace(c));
        if !(i0 + 4 <= sql.len() && lower_seq(sql.subrange(i0, i0 + 4)) == seq!['w', 'i', 't', 'h']) {
            None
        } else {
            cte_loop(sql, i0 + 4, Seq::empty())
        }
    }
}

/// The sub-queries of a `WITH` clause, by name, in the order in which each
/// name was first defined; a name defined twice keeps its last body.
#[derive(Debug, Clone)]
pub struct CteQueries {
    entries: Vec<(Vec<char>, Vec<char>)>,
}

impl View for CteQueries {
    type V = Seq<NamedQuery>;

    closed spec fn view(&self) -> Seq<NamedQuery> {
        self.entries@.map_values(|e: (Vec<char>, Vec<char>)| (e.0@, e.1@))
    }
}

impl CteQueries {
    /// Number of distinct sub-query names.
    pub fn len(&self) -> (r: usize)
        ensures
            r == self@.len(),
    {
        self.entries.len()
    }

    fn position(&self, name: &Vec<char>) -> (r: Option<usize>)
        ensures
            match r {
                Some(k) => index_of_name(self@, name@, 0) == Some(k as int) && k < self@.len(),
                None => index_of_name(self@, name@, 0) is None,
            },
    {
        let mut k: usize = 0;
        while k < self.entries.len()
            invariant
                k <= self.entries.len(),
                index_of_name(self@, name@, 0) == index_of_name(self@, name@, k as int),
            decreases self.entries.len() - k,
        {
            if eq_chars(&self.entries[k].0, name) {
                return Some(k);
            }
            k = k + 1;
        }
        None
    }

    /// Whether a sub-query of that name was defined.
    pub fn contains_key(&self, name: &str) -> (r: bool)
        ensures
            r == (index_of_name(self@, name@, 0) is Some),
    {
        let n = chars_of(name);
        self.position(&n).is_some()
    }

    /// The body of the sub-query of that name.
    pub fn get(&self, name: &str) -> (r: Option<String>)
        ensures
            match index_of_name(self@, name@, 0) {
                Some(k) => r is Some && r->0@ == self@[k].1,
                None => r is None,
            },
    {
        let n = chars_of(name);
        match self.position(&n) {
            Some(k) => Some(string_from_chars(&self.entries[k].1)),
            None => None,
        }
    }

    fn upsert(&mut self, name: Vec<char>, query: Vec<char>)
        ensures
            final(self)@ == upsert(old(self)@, name@, query@),
    {
        match self.position(&name) {
            Some(k) => {
                let ghost before = self@;
                self.entries.set(k, (name, query));
                assert(self@ =~= before.update(k as int, (name@, query@)));
            },
            None => {
                let ghost before = self@;
                self.entries.push((name, query));
                assert(self@ =~= before.push((name@, query@)));
            },
        }
    }
}

proof fn lemma_paren_scan(c: Seq<char>, i: int, depth: int)
    ensures
        paren_scan(c, i, depth).0 >= i,
        0 <= i <= c.len() ==> paren_scan(c, i, depth).0 <= c.len(),
    decreases c.len() - i,
{
    if !(i < 0 || i >= c.len() || depth == 0) {
        if c[i] == '(' {
            lemma_paren_scan(c, i + 1, depth + 1);
        } else if c[i] == ')' {
            lemma_paren_scan(c, i + 1, depth - 1);
        } else {
            lemma_paren_scan(c, i + 1, depth);
        }
    }
}

/// Index past the whitespace and commas that start at `i`.
fn skip_ws_comma(s: &Vec<char>, i: usize) -> (r: usize)
    requires
        i <= s.len(),
    ensures
        r == i + span_while(s@, i as int, |c: char| is_ws_or_comma(c)),
        r <= s.len(),
{
    let ghost p = |c: char| is_ws_or_comma(c);
    let mut j: usize = i;
    while j < s.len() && (is_whitespace(s[j]) || s[j] == ',')
        invariant
            i <= j <= s.len(),
            span_while(s@, i as int, p) == (j - i) + span_while(s@, j as int, p),
            p == (|c: char| is_ws_or_comma(c)),
        decreases s.len() - j,
    {
        assert(p(s@[j as int]));
        j = j + 1;
    }
    j
}

/// Parses a query whose sub-queries are defined in a `WITH` clause.
///
/// Returns the sub-queries by name and the final `SELECT`, or `None` when the
/// text does not start with `WITH` or a definition is malformed.
pub fn parse_cte_queries(sql: &str) -> (r: Option<(CteQueries, String)>)
    ensures
        match r {
            Some((m, f)) => cte_queries(sql@) == Some((m@, f@)),
            None => cte_queries(sql@) is None,
        },
{
    let c = chars_of(sql);
    let n = c.len();
    let i0 = skip_ws(&c, 0);
    proof {
        lemma_trim_start_span(c@);
    }
    if !(i0 < n && n - i0 >= 5 && to_lower(c[i0]) == 'w' && to_lower(c[i0 + 1]) == 'i' && to_lower(c[i0 + 2])
        == 't' && to_lower(c[i0 + 3]) == 'h' && c[i0 + 4] == ' ') {
        proof {
            let t = lower_seq(trim_start(sql@));
            if t.len() >= 5 && t.take(5) == with_kw() {
                assert(t[0] == 'w' && t[4] == ' ');
                assert(t[1] == 'i' && t[2] == 't' && t[3] == 'h');
            }
        }
        return None;
    }
    proof {
        let t = lower_seq(trim_start(sql@));
        assert(t.take(5) =~= with_kw());
        assert(lower_seq(sql@.subrange(i0 as int, i0 + 4)) =~= seq!['w', 'i', 't', 'h']);
    }
    let mut m = CteQueries { entries: Vec::new() };
    assert(m@ =~= Seq::<NamedQuery>::empty());
    let mut i: usize = i0 + 4;
    loop
        invariant
            c@ == sql@,
            n == c.len(),
            i <= n,
            cte_queries(sql@) == cte_loop(c@, i as int, m@),
        decreases n - i,
    {
        let i1 = skip_ws_comma(&c, i);
        proof {
            lemma_span_while_all(c@, i as int, |c: char| is_ws_or_comma(c));
        }
        if i1 >= n {
            return None;
        }
        let i2 = ident_end(&c, i1);
        proof {
            lemma_span_while_all(c@, i1 as int, |c: char| is_ident_char(c));
        }
        let name = trim_vec(&c, i1, i2);
        let i3 = skip_ws(&c, i2);
        proof {
            lemma_span_while_all(c@, i2 as int, |c: char| char_is_whitespace(c));
        }
        if name.len() == 0 {
            return None;
        }
        if !(i3 < n && n - i3 >= 2 && to_lower(c[i3]) == 'a' && to_lower(c[i3 + 1]) == 's') {
            return None;
        }
        let i4 = skip_ws(&c, i3 + 2);
        proof {
            lemma_span_while_all(c@, i3 + 2, |c: char| char_is_whitespace(c));
        }
        if !(i4 < n && c[i4] == '(') {
            return None;
        }
        let start = i4 + 1;
        let mut j: usize = start;
        let mut opens: usize = 0;
        let mut closes: usize = 0;
        while j < n && closes < opens + 1
            invariant
                start <= j <= n,
                n == c.len(),
                opens + closes <= j - start,
                closes <= opens + 1,
                paren_scan(c@, start as int, 1) == paren_scan(c@, j as int, 1 + opens - closes),
            decreases n - j,
        {
            if c[j] == '(' {
                opens = opens + 1;
            } else if c[j] == ')' {
                closes = closes + 1;
            }
            j = j + 1;
        }
        if closes < opens + 1 {
            return None;
        }
        let body = trim_vec(&c, start, j - 1);
        let ghost m_before = m@;
        let ghost name_v = name@;
        let ghost body_v = body@;
        m.upsert(name, body);
        let i6 = skip_ws(&c, j);
        proof {
            lemma_span_while_all(c@, j as int, |c: char| char_is_whitespace(c));
            assert(paren_scan(c@, start as int, 1) == (j as int, 0int));
            assert(m@ == upsert(m_before, trim(c@.subrange(i1 as int, i2 as int)), trim(c@.subrange(start as int, j - 1))));
        }
        if i6 < n && c[i6] == ',' {
            i = i6 + 1;
        } else {
            let f = trim_vec(&c, i6, n);
            assert(c@.subrange(i6 as int, n as int) =~= c@.skip(i6 as int));
            return Some((m, string_from_chars(&f)));
        }
    }
}

proof fn lemma_trim_start_span(s: Seq<char>)
    ensures
        trim_start(s) == s.skip(span_while(s, 0, |c: char| char_is_whitespace(c))),
        0 <= span_while(s, 0, |c: char| char_is_whitespace(c)) <= s.len(),
    decreases s.len(),
{
    let p = |c: char| char_is_whitespace(c);
    if s.len() > 0 && char_is_whitespace(s[0]) {
        lemma_trim_start_span(s.drop_first());
        lemma_span_shift(s, 0, p);
        assert(s.drop_first().skip(span_while(s.drop_first(), 0, p)) =~= s.skip(
            span_while(s, 0, p),
        ));
    } else {
        assert(s.skip(0) =~= s);
    }
}

proof fn lemma_span_shift(s: Seq<char>, i: int, p: spec_fn(char) -> bool)
    requires
        0 <= i < s.len(),
    ensures
        span_while(s.drop_first(), i, p) == span_while(s, i + 1, p),
    decreases s.len() - i,
{
    if i + 1 < s.len() && p(s[i + 1]) {
        lemma_span_shift(s, i + 1, p);
    }
}

} // verus!
