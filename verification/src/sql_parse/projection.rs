//! The projected columns of a `SELECT`: expression, alias and aggregate.
use vstd::prelude::*;
use crate::text::{
    char_is_whitespace, chars_of, contains_char, find_from, find_from_exec, is_alphanumeric,
    is_ident_char, is_whitespace, lower_seq, lower_vec, matches_at, matches_at_exec, rfind,
    rfind_before, rfind_exec, slice_vec, string_from_chars, strip_quotes, strip_quotes_vec,
    trim, trim_vec,
};
use crate::sql_parse::entity::{from_kw, lemma_span_while_all};

verus! {

/// One projected column of a `SELECT`.
#[derive(Debug, Clone)]
pub struct ProjectedColumn {
    /// The expression, without its alias.
    pub expr: String,
    /// The name under which the column is returned.
    pub alias: String,
    /// Whether the expression is one of `COUNT`, `SUM`, `AVG`, `MIN`, `MAX`.
    pub is_aggregate: bool,
    /// The aggregate, upper-cased.
    pub agg_fn: Option<String>,
    /// The field the aggregate reads (`*` for `COUNT(*)`).
    pub agg_field: Option<String>,
}

/// The mathematical content of a [`ProjectedColumn`].
pub struct ColumnView {
    pub expr: Seq<char>,
    pub alias: Seq<char>,
    pub is_aggregate: bool,
    pub agg_fn: Option<Seq<char>>,
    pub agg_field: Option<Seq<char>>,
}

impl View for ProjectedColumn {
    type V = ColumnView;

    open spec fn view(&self) -> ColumnView {
        ColumnView {
            expr: self.expr@,
            alias: self.alias@,
            is_aggregate: self.is_aggregate,
            agg_fn: match self.agg_fn {
                Some(s) => Some(s@),
                None => None,
            },
            agg_field: match self.agg_field {
                Some(s) => Some(s@),
                None => None,
            },
        }
    }
}

/// `select ` — the keyword that opens the projection.
pub open spec fn select_kw() -> Seq<char> {
    seq!['s', 'e', 'l', 'e', 'c', 't', ' ']
}

/// `from` followed by a line break.
pub open spec fn from_nl_kw() -> Seq<char> {
    seq!['f', 'r', 'o', 'm', '\n']
}

/// ` as ` — the keyword that introduces an alias.
pub open spec fn as_kw() -> Seq<char> {
    seq![' ', 'a', 's', ' ']
}

/// Position, in the text `a` that follows `select `, of the `FROM` that
/// closes the projection: the first `from ` or `from\n` (any case) met outside
/// parentheses, scanning from position `i` at parenthesis depth `depth`.
pub open spec fn from_offset(a: Seq<char>, i: int, depth: int) -> Option<int>
    decreases a.len() - i,
{
    if i < 0 || i >= a.len() {
        None
    } else if a[i] == '(' {
        from_offset(a, i + 1, depth + 1)
    } else if a[i] == ')' {
        from_offset(a, i + 1, depth - 1)
    } else if depth == 0 && (matches_at(lower_seq(a), from_kw(), i) || matches_at(
        lower_seq(a),
        from_nl_kw(),
        i,
    )) {
        Some(i)
    } else {
        from_offset(a, i + 1, depth)
    }
}

/// `acc` extended with the trimmed piece `cur` when it is not empty.
pub open spec fn push_piece(acc: Seq<Seq<char>>, cur: Seq<char>) -> Seq<Seq<char>> {
    if trim(cur).len() > 0 {
        acc.push(trim(cur))
    } else {
        acc
    }
}

/// The comma-separated pieces of `p` from position `i`, splitting only at
/// parenthesis depth 0; `cur` is the piece read so far and `acc` the pieces
/// already closed. Pieces are trimmed and empty ones dropped.
pub open spec fn split_top(
    p: Seq<char>,
    i: int,
    depth: int,
    cur: Seq<char>,
    acc: Seq<Seq<char>>,
) -> Seq<Seq<char>>
    decreases p.len() - i,
{
    if i < 0 || i >= p.len() {
        push_piece(acc, cur)
    } else if p[i] == '(' {
        split_top(p, i + 1, depth + 1, cur.push(p[i]), acc)
    } else if p[i] == ')' {
        split_top(p, i + 1, depth - 1, cur.push(p[i]), acc)
    } else if p[i] == ',' && depth == 0 {
        split_top(p, i + 1, depth, Seq::empty(), push_piece(acc, cur))
    } else {
        split_top(p, i + 1, depth, cur.push(p[i]), acc)
    }
}

/// Index of the last whitespace character of `t` before `b`, or `-1`.
pub open spec fn last_ws_before(t: Seq<char>, b: int) -> int
    decreases b,
{
    if b <= 0 {
        -1
    } else if char_is_whitespace(t[b - 1]) {
        b - 1
    } else {
        last_ws_before(t, b - 1)
    }
}

/// The last whitespace-separated token of `t`.
pub open spec fn last_token(t: Seq<char>) -> Seq<char> {
    t.skip(last_ws_before(t, t.len() as int) + 1)
}

/// Whether a candidate alias holds no parenthesis.
pub open spec fn paren_free(a: Seq<char>) -> bool {
    !a.contains(')') && !a.contains('(')
}

/// The expression of a projected piece, without its alias: the text before
/// the last ` as `, or, without ` as `, the text before a last token that holds
/// no parenthesis once its quotes are dropped.
pub open spec fn expr_before_alias(part: Seq<char>) -> Seq<char> {
    match rfind(lower_seq(part), as_kw()) {
        Some(a) => trim(part.take(a)),
        None => {
            let t = trim(part);
            if t.contains(' ') && paren_free(strip_quotes(last_token(t))) {
                trim(t.take(t.len() - last_token(t).len()))
            } else {
                t
            }
        },
    }
}

/// The alias of a projected piece: what follows the last ` as `, or a last
/// token without parentheses, or the whole trimmed piece; quotes dropped from
/// the first two.
pub open spec fn column_alias(part: Seq<char>) -> Seq<char> {
    match rfind(lower_seq(part), as_kw()) {
        Some(a) => strip_quotes(trim(part.skip(a + 4))),
        None => {
            let t = trim(part);
            if t.contains(' ') && paren_free(strip_quotes(last_token(t))) {
                strip_quotes(last_token(t))
            } else {
                t
            }
        },
    }
}

/// Position in `r` of the `)` that closes an already-open parenthesis,
/// scanning from `i` at depth `depth`.
pub open spec fn close_index(r: Seq<char>, i: int, depth: int) -> Option<int>
    decreases r.len() - i,
{
    if i < 0 || i >= r.len() {
        None
    } else if r[i] == '(' {
        close_index(r, i + 1, depth + 1)
    } else if r[i] == ')' {
        if depth - 1 == 0 {
            Some(i)
        } else {
            close_index(r, i + 1, depth - 1)
        }
    } else {
        close_index(r, i + 1, depth)
    }
}

/// The argument of the first call `f(...)` (function name in any case) in
/// `expr`, trimmed; nothing when there is no such call or it is not closed.
pub open spec fn call_arg(expr: Seq<char>, f: Seq<char>) -> Option<Seq<char>> {
    let fp = lower_seq(f).push('(');
    match find_from(lower_seq(expr), fp, 0) {
        None => None,
        Some(idx) => {
            let rest = expr.skip(idx + fp.len());
            match close_index(rest, 0, 1) {
                Some(e) => Some(trim(rest.take(e))),
                None => None,
            }
        },
    }
}

/// End of the last run of identifier characters of `a` at or before `j`.
pub open spec fn ident_run_end(a: Seq<char>, j: int) -> int
    decreases j,
{
    if j <= 0 {
        0
    } else if is_ident_char(a[j - 1]) {
        j
    } else {
        ident_run_end(a, j - 1)
    }
}

/// Start of the run of identifier characters that ends at `j`.
pub open spec fn ident_run_start(a: Seq<char>, j: int) -> int
    decreases j,
{
    if j <= 0 {
        0
    } else if is_ident_char(a[j - 1]) {
        ident_run_start(a, j - 1)
    } else {
        j
    }
}

/// The field an aggregate reads: `*`, or the last identifier of its argument.
pub open spec fn agg_field_of(arg: Seq<char>) -> Seq<char> {
    if arg == seq!['*'] {
        arg
    } else {
        let e = ident_run_end(arg, arg.len() as int);
        arg.subrange(ident_run_start(arg, e), e)
    }
}

/// The aggregate functions, in the order in which they are tried.
pub open spec fn agg_names() -> Seq<Seq<char>> {
    seq![
        seq!['c', 'o', 'u', 'n', 't'],
        seq!['s', 'u', 'm'],
        seq!['a', 'v', 'g'],
        seq!['m', 'i', 'n'],
        seq!['m', 'a', 'x'],
    ]
}

/// The same names, upper-cased.
pub open spec fn agg_upper_names() -> Seq<Seq<char>> {
    seq![
        seq!['C', 'O', 'U', 'N', 'T'],
        seq!['S', 'U', 'M'],
        seq!['A', 'V', 'G'],
        seq!['M', 'I', 'N'],
        seq!['M', 'A', 'X'],
    ]
}

/// Index, among the first `k` aggregate names, of the last one called in `expr`.
pub open spec fn last_agg(expr: Seq<char>, k: int) -> Option<int>
    decreases k,
{
    if k <= 0 {
        None
    } else if call_arg(expr, agg_names()[k - 1]) is Some {
        Some(k - 1)
    } else {
        last_agg(expr, k - 1)
    }
}

/// The column that one projected piece describes.
pub open spec fn column_of(part: Seq<char>) -> ColumnView {
    let expr = expr_before_alias(part);
    match last_agg(expr, 5) {
        Some(j) => ColumnView {
            expr,
            alias: column_alias(part),
            is_aggregate: true,
            agg_fn: Some(agg_upper_names()[j]),
            agg_field: Some(agg_field_of(call_arg(expr, agg_names()[j])->0)),
        },
        None => ColumnView {
            expr,
            alias: column_alias(part),
            is_aggregate: false,
            agg_fn: None,
            agg_field: None,
        },
    }
}

/// The projected pieces of `sql`: the text between the first `select ` and
/// the `FROM` that closes it, split at top-level commas.
pub open spec fn projected_pieces(sql: Seq<char>) -> Seq<Seq<char>> {
    match find_from(lower_seq(sql), select_kw(), 0) {
        None => Seq::empty(),
        Some(si) => {
            let a = sql.skip(si + 7);
            match from_offset(a, 0, 0) {
                None => Seq::empty(),
                Some(fp) => split_top(trim(a.take(fp)), 0, 0, Seq::empty(), Seq::empty()),
            }
        },
    }
}

/// The columns that `extract_projected_columns` reports for `sql`.
pub open spec fn projected_columns(sql: Seq<char>) -> Seq<ColumnView> {
    projected_pieces(sql).map_values(|p: Seq<char>| column_of(p))
}


/// One more than the index of the last whitespace character of `t`.
fn last_token_start(t: &Vec<char>) -> (r: usize)
    ensures
        r == last_ws_before(t@, t@.len() as int) + 1,
        r <= t.len(),
{
    let mut b: usize = t.len();
    while b > 0
        invariant
            b <= t.len(),
            last_ws_before(t@, t@.len() as int) == last_ws_before(t@, b as int),
        decreases b,
    {
        if is_whitespace(t[b - 1]) {
            return b;
        }
        b = b - 1;
    }
    0
}

proof fn lemma_last_ws_bounds(t: Seq<char>, b: int)
    requires
        b <= t.len(),
    ensures
        -1 <= last_ws_before(t, b) < b || (b <= 0 && last_ws_before(t, b) == -1),
    decreases b,
{
    if b > 0 && !char_is_whitespace(t[b - 1]) {
        lemma_last_ws_bounds(t, b - 1);
    }
}

/// The no-` as ` branch shared by the expression and the alias of a piece:
/// `(t, Some(tok_start))` when the trimmed piece `t` holds a space and its last
/// token, without quotes, holds no parenthesis; `(t, None)` otherwise.
fn token_split(part: &Vec<char>) -> (r: (Vec<char>, Option<usize>))
    ensures
        r.0@ == trim(part@),
        match r.1 {
            Some(k) => {
                &&& trim(part@).contains(' ')
                &&& paren_free(strip_quotes(last_token(trim(part@))))
                &&& k == last_ws_before(r.0@, r.0@.len() as int) + 1
                &&& k <= r.0.len()
            },
            None => !(trim(part@).contains(' ') && paren_free(strip_quotes(last_token(trim(part@))))),
        },
{
    let t = trim_vec(part, 0, part.len());
    assert(part@.subrange(0, part@.len() as int) =~= part@);
    if contains_char(&t, ' ') {
        let k = last_token_start(&t);
        let tok = slice_vec(&t, k, t.len());
        assert(tok@ =~= last_token(t@));
        let al = strip_quotes_vec(&tok);
        if !contains_char(&al, ')') && !contains_char(&al, '(') {
            return (t, Some(k));
        }
    }
    (t, None)
}

/// The expression of a projected piece, without its alias.
fn expr_before_alias_vec(part: &Vec<char>) -> (r: Vec<char>)
    ensures
        r@ == expr_before_alias(part@),
{
    let lp = lower_vec(part);
    let kw = vec![' ', 'a', 's', ' '];
    assert(kw@ =~= as_kw());
    match rfind_exec(&lp, &kw) {
        Some(a) => {
            proof {
                lemma_rfind_bounds(lp@, kw@, lp@.len() + 1int);
                assert(lp@.len() == part@.len());
            }
            let v = trim_vec(part, 0, a);
            assert(part@.subrange(0, a as int) =~= part@.take(a as int));
            v
        },
        None => {
            let (t, k) = token_split(part);
            match k {
                Some(k) => {
                    proof {
                        assert(last_token(t@).len() == t@.len() - k);
                    }
                    let r = trim_vec(&t, 0, k);
                    assert(t@.subrange(0, k as int) =~= t@.take(t@.len() - last_token(t@).len()));
                    r
                },
                None => t,
            }
        },
    }
}

/// The alias of a projected piece.
fn column_alias_vec(part: &Vec<char>) -> (r: Vec<char>)
    ensures
        r@ == column_alias(part@),
{
    let lp = lower_vec(part);
    let kw = vec![' ', 'a', 's', ' '];
    assert(kw@ =~= as_kw());
    match rfind_exec(&lp, &kw) {
        Some(a) => {
            proof {
                lemma_rfind_bounds(lp@, kw@, lp@.len() + 1int);
                assert(lp@.len() == part@.len());
                assert(part@.len() == part.len());
            }
            let t = trim_vec(part, a + 4, part.len());
            assert(part@.subrange(a + 4, part@.len() as int) =~= part@.skip(a + 4));
            strip_quotes_vec(&t)
        },
        None => {
            let (t, k) = token_split(part);
            match k {
                Some(k) => {
                    let tok = slice_vec(&t, k, t.len());
                    assert(tok@ =~= last_token(t@));
                    strip_quotes_vec(&tok)
                },
                None => t,
            }
        },
    }
}

proof fn lemma_rfind_bounds(s: Seq<char>, pat: Seq<char>, b: int)
    ensures
        rfind_before(s, pat, b) matches Some(p) ==> 0 <= p < b && matches_at(s, pat, p),
    decreases b,
{
    if b > 0 && !matches_at(s, pat, b - 1) {
        lemma_rfind_bounds(s, pat, b - 1);
    }
}

proof fn lemma_find_bounds(s: Seq<char>, pat: Seq<char>, start: int)
    ensures
        find_from(s, pat, start) matches Some(p) ==> start <= p && matches_at(s, pat, p),
    decreases s.len() - start,
{
    if !(start < 0 || start + pat.len() > s.len()) && !matches_at(s, pat, start) {
        lemma_find_bounds(s, pat, start + 1);
    }
}

/// Position of the `)` closing a parenthesis opened just before `from`.
fn close_index_exec(r: &Vec<char>, from: usize) -> (res: Option<usize>)
    requires
        from <= r.len(),
    ensures
        match res {
            Some(e) => close_index(r@.skip(from as int), 0, 1) == Some(e - from) && from <= e
                < r.len(),
            None => close_index(r@.skip(from as int), 0, 1) is None,
        },
{
    let ghost rs = r@.skip(from as int);
    let mut i: usize = from;
    let mut opens: usize = 0;
    let mut closes: usize = 0;
    while i < r.len()
        invariant
            from <= i <= r.len(),
            rs == r@.skip(from as int),
            opens + closes <= i - from,
            close_index(rs, 0, 1) == close_index(rs, i - from, 1 + opens - closes),
        decreases r.len() - i,
    {
        assert(rs[i - from] == r@[i as int]);
        if r[i] == '(' {
            opens = opens + 1;
        } else if r[i] == ')' {
            if opens == closes {
                return Some(i);
            }
            closes = closes + 1;
        }
        i = i + 1;
    }
    None
}

/// The argument of the first call of `f` in `expr`.
fn call_arg_vec(expr: &Vec<char>, f: &Vec<char>) -> (r: Option<Vec<char>>)
    ensures
        match r {
            Some(v) => call_arg(expr@, f@) == Some(v@),
            None => call_arg(expr@, f@) is None,
        },
{
    let le = lower_vec(expr);
    let mut fp = lower_vec(f);
    fp.push('(');
    match find_from_exec(&le, &fp, 0) {
        None => None,
        Some(idx) => {
            proof {
                lemma_find_bounds(le@, fp@, 0);
                assert(le@.len() == expr@.len());
                assert(expr@.len() == expr.len());
            }
            let start = idx + fp.len();
            match close_index_exec(expr, start) {
                Some(e) => {
                    let v = trim_vec(expr, start, e);
                    assert(expr@.subrange(start as int, e as int) =~= expr@.skip(
                        start as int,
                    ).take(e - start));
                    Some(v)
                },
                None => None,
            }
        },
    }
}

/// End of the last identifier run at or before `j`.
fn ident_run_end_exec(a: &Vec<char>, j: usize) -> (r: usize)
    requires
        j <= a.len(),
    ensures
        r == ident_run_end(a@, j as int),
        r <= j,
{
    let mut k: usize = j;
    while k > 0 && !(is_alphanumeric(a[k - 1]) || a[k - 1] == '_')
        invariant
            k <= j <= a.len(),
            ident_run_end(a@, j as int) == ident_run_end(a@, k as int),
        decreases k,
    {
        k = k - 1;
    }
    k
}

/// Start of the identifier run that ends at `j`.
fn ident_run_start_exec(a: &Vec<char>, j: usize) -> (r: usize)
    requires
        j <= a.len(),
    ensures
        r == ident_run_start(a@, j as int),
        r <= j,
{
    let mut k: usize = j;
    while k > 0 && (is_alphanumeric(a[k - 1]) || a[k - 1] == '_')
        invariant
            k <= j <= a.len(),
            ident_run_start(a@, j as int) == ident_run_start(a@, k as int),
        decreases k,
    {
        k = k - 1;
    }
    k
}

/// The field that an aggregate reads, from its argument.
fn agg_field_vec(arg: &Vec<char>) -> (r: Vec<char>)
    ensures
        r@ == agg_field_of(arg@),
{
    let star = vec!['*'];
    assert(star@ =~= seq!['*']);
    if crate::text::eq_chars(arg, &star) {
        return star;
    }
    let e = ident_run_end_exec(arg, arg.len());
    let b = ident_run_start_exec(arg, e);
    slice_vec(arg, b, e)
}

/// The column that one projected piece describes.
fn column_of_vec(part: &Vec<char>) -> (r: ProjectedColumn)
    ensures
        r@ == column_of(part@),
{
    let expr = expr_before_alias_vec(part);
    let alias = column_alias_vec(part);
    let names: Vec<Vec<char>> = vec![
        vec!['c', 'o', 'u', 'n', 't'],
        vec!['s', 'u', 'm'],
        vec!['a', 'v', 'g'],
        vec!['m', 'i', 'n'],
        vec!['m', 'a', 'x'],
    ];
    let uppers: Vec<Vec<char>> = vec![
        vec!['C', 'O', 'U', 'N', 'T'],
        vec!['S', 'U', 'M'],
        vec!['A', 'V', 'G'],
        vec!['M', 'I', 'N'],
        vec!['M', 'A', 'X'],
    ];
    proof {
        assert(names@.len() == 5);
        assert(names@[0]@ =~= agg_names()[0]);
        assert(names@[1]@ =~= agg_names()[1]);
        assert(names@[2]@ =~= agg_names()[2]);
        assert(names@[3]@ =~= agg_names()[3]);
        assert(names@[4]@ =~= agg_names()[4]);
        assert(uppers@[0]@ =~= agg_upper_names()[0]);
        assert(uppers@[1]@ =~= agg_upper_names()[1]);
        assert(uppers@[2]@ =~= agg_upper_names()[2]);
        assert(uppers@[3]@ =~= agg_upper_names()[3]);
        assert(uppers@[4]@ =~= agg_upper_names()[4]);
    }
    let mut found: Option<(usize, Vec<char>)> = None;
    let mut k: usize = 0;
    while k < 5
        invariant
            k <= 5,
            names@.len() == 5,
            uppers@.len() == 5,
            forall|j: int| 0 <= j < 5 ==> (#[trigger] names@[j])@ == agg_names()[j],
            forall|j: int| 0 <= j < 5 ==> (#[trigger] uppers@[j])@ == agg_upper_names()[j],
            match found {
                Some((j, a)) => last_agg(expr@, k as int) == Some(j as int) && call_arg(
                    expr@,
                    agg_names()[j as int],
                ) == Some(a@) && j < 5,
                None => last_agg(expr@, k as int) is None,
            },
        decreases 5 - k,
    {
        match call_arg_vec(&expr, &names[k]) {
            Some(a) => {
                found = Some((k, a));
            },
            None => {},
        }
        k = k + 1;
    }
    match found {
        Some((j, a)) => {
            let field = agg_field_vec(&a);
            ProjectedColumn {
                expr: string_from_chars(&expr),
                alias: string_from_chars(&alias),
                is_aggregate: true,
                agg_fn: Some(string_from_chars(&uppers[j])),
                agg_field: Some(string_from_chars(&field)),
            }
        },
        None => ProjectedColumn {
            expr: string_from_chars(&expr),
            alias: string_from_chars(&alias),
            is_aggregate: false,
            agg_fn: None,
            agg_field: None,
        },
    }
}


/// Position of the `FROM` that closes the projection in the text `a`.
fn from_offset_exec(a: &Vec<char>) -> (r: Option<usize>)
    ensures
        match r {
            Some(i) => from_offset(a@, 0, 0) == Some(i as int) && i <= a.len(),
            None => from_offset(a@, 0, 0) is None,
        },
{
    let la = lower_vec(a);
    let k1 = vec!['f', 'r', 'o', 'm', ' '];
    let k2 = vec!['f', 'r', 'o', 'm', '\n'];
    assert(k1@ =~= from_kw());
    assert(k2@ =~= from_nl_kw());
    let mut i: usize = 0;
    let mut opens: usize = 0;
    let mut closes: usize = 0;
    while i < a.len()
        invariant
            i <= a.len(),
            la@ == lower_seq(a@),
            k1@ == from_kw(),
            k2@ == from_nl_kw(),
            opens + closes <= i,
            from_offset(a@, 0, 0) == from_offset(a@, i as int, opens - closes),
        decreases a.len() - i,
    {
        let c = a[i];
        if c == '(' {
            opens = opens + 1;
        } else if c == ')' {
            closes = closes + 1;
        } else if opens == closes && (matches_at_exec(&la, &k1, i) || matches_at_exec(&la, &k2, i)) {
            return Some(i);
        }
        i = i + 1;
    }
    None
}

/// The comma-separated pieces of `p`, split at parenthesis depth 0.
fn split_top_exec(p: &Vec<char>) -> (r: Vec<Vec<char>>)
    ensures
        r@.map_values(|v: Vec<char>| v@) == split_top(p@, 0, 0, Seq::empty(), Seq::empty()),
{
    let mut acc: Vec<Vec<char>> = Vec::new();
    let mut cur: Vec<char> = Vec::new();
    let mut i: usize = 0;
    let mut opens: usize = 0;
    let mut closes: usize = 0;
    assert(acc@.map_values(|v: Vec<char>| v@) =~= Seq::<Seq<char>>::empty());
    assert(cur@ =~= Seq::<char>::empty());
    while i < p.len()
        invariant
            i <= p.len(),
            opens + closes <= i,
            split_top(p@, 0, 0, Seq::empty(), Seq::empty()) == split_top(
                p@,
                i as int,
                opens - closes,
                cur@,
                acc@.map_values(|v: Vec<char>| v@),
            ),
        decreases p.len() - i,
    {
        let c = p[i];
        if c == '(' {
            opens = opens + 1;
            cur.push(c);
        } else if c == ')' {
            closes = closes + 1;
            cur.push(c);
        } else if c == ',' && opens == closes {
            let t = trim_vec(&cur, 0, cur.len());
            assert(cur@.subrange(0, cur@.len() as int) =~= cur@);
            let ghost before = acc@.map_values(|v: Vec<char>| v@);
            if t.len() > 0 {
                acc.push(t);
                assert(acc@.map_values(|v: Vec<char>| v@) =~= before.push(trim(cur@)));
            }
            cur = Vec::new();
            assert(cur@ =~= Seq::<char>::empty());
        } else {
            cur.push(c);
        }
        i = i + 1;
    }
    let t = trim_vec(&cur, 0, cur.len());
    assert(cur@.subrange(0, cur@.len() as int) =~= cur@);
    let ghost before = acc@.map_values(|v: Vec<char>| v@);
    if t.len() > 0 {
        acc.push(t);
        assert(acc@.map_values(|v: Vec<char>| v@) =~= before.push(trim(cur@)));
    }
    acc
}

/// Extracts the projected columns of a `SELECT`: each top-level piece
/// between `select ` and the closing `FROM`, with its expression, its alias
/// and, when it calls `COUNT`, `SUM`, `AVG`, `MIN` or `MAX`, the aggregate and
/// the field it reads (the last such function wins).
pub fn extract_projected_columns(sql: &str) -> (r: Vec<ProjectedColumn>)
    ensures
        r@.map_values(|c: ProjectedColumn| c@) == projected_columns(sql@),
{
    let s = chars_of(sql);
    let ls = lower_vec(&s);
    let kw = vec!['s', 'e', 'l', 'e', 'c', 't', ' '];
    assert(kw@ =~= select_kw());
    let si = match find_from_exec(&ls, &kw, 0) {
        Some(si) => si,
        None => {
            let r: Vec<ProjectedColumn> = Vec::new();
            assert(r@.map_values(|c: ProjectedColumn| c@) =~= projected_columns(sql@));
            return r;
        },
    };
    proof {
        lemma_find_bounds(ls@, kw@, 0);
        assert(ls@.len() == s.len());
    }
    let a = slice_vec(&s, si + 7, s.len());
    assert(a@ =~= sql@.skip(si + 7));
    let fp = match from_offset_exec(&a) {
        Some(fp) => fp,
        None => {
            let r: Vec<ProjectedColumn> = Vec::new();
            assert(r@.map_values(|c: ProjectedColumn| c@) =~= projected_columns(sql@));
            return r;
        },
    };
    let sel = trim_vec(&a, 0, fp);
    assert(a@.subrange(0, fp as int) =~= a@.take(fp as int));
    let parts = split_top_exec(&sel);
    let ghost pieces = parts@.map_values(|v: Vec<char>| v@);
    assert(pieces == projected_pieces(sql@));
    let mut out: Vec<ProjectedColumn> = Vec::new();
    let mut k: usize = 0;
    while k < parts.len()
        invariant
            k <= parts.len(),
            pieces == parts@.map_values(|v: Vec<char>| v@),
            out@.map_values(|c: ProjectedColumn| c@) =~= pieces.take(k as int).map_values(
                |p: Seq<char>| column_of(p),
            ),
        decreases parts.len() - k,
    {
        let col = column_of_vec(&parts[k]);
        let ghost before = out@.map_values(|c: ProjectedColumn| c@);
        out.push(col);
        assert(out@.map_values(|c: ProjectedColumn| c@) =~= before.push(col@));
        k = k + 1;
        assert(pieces.take(k as int) =~= pieces.take(k - 1).push(pieces[k - 1]));
        assert(pieces.take(k as int).map_values(|p: Seq<char>| column_of(p)) =~= pieces.take(
            k - 1,
        ).map_values(|p: Seq<char>| column_of(p)).push(column_of(pieces[k - 1])));
    }
    assert(pieces.take(parts.len() as int) =~= pieces);
    out
}

/// The expression of a projected piece, without its alias.
pub fn extract_expr_before_alias(part: &str) -> (r: String)
    ensures
        r@ == expr_before_alias(part@),
{
    let p = chars_of(part);
    let v = expr_before_alias_vec(&p);
    string_from_chars(&v)
}

/// The alias of a projected piece.
pub fn resolve_column_alias(expr: &str) -> (r: String)
    ensures
        r@ == column_alias(expr@),
{
    let p = chars_of(expr);
    let v = column_alias_vec(&p);
    string_from_chars(&v)
}

/// The trimmed argument of the first call of `func_name` (any case) in `expr`.
pub fn extract_arg(expr: &str, func_name: &str) -> (r: Option<String>)
    ensures
        crate::sql_parse::entity::opt_view(r) == call_arg(expr@, func_name@),
{
    let e = chars_of(expr);
    let f = chars_of(func_name);
    match call_arg_vec(&e, &f) {
        Some(v) => Some(string_from_chars(&v)),
        None => None,
    }
}

} // verus!
