//! The filters of a `WHERE` clause: its `column = value` equalities and its
//! `column IN (values)` lists, each column with the last value it was
//! compared to.
use vstd::prelude::*;
use crate::numbers::{parse_i64, parse_int};
use crate::sql_parse::entity::{lemma_find_from_ge, lemma_rfind_before_bounds, lemma_span_while_all};
use crate::text::{
    char_is_alphanumeric, char_is_whitespace, chars_of, eq_chars, find_from, find_from_exec, first_from,
    is_alphanumeric, is_digit, lower_seq, lower_vec, remove_char, remove_char_vec, rfind, rfind_exec,
    same_text, skip_ws, slice_vec, span_while, split_chars, split_on, string_from_chars, trim, trim_bounds,
    trim_vec,
};

verus! {

/// A character of a column reference: alphanumeric, `_`, `"`, `/`, `.` or `-`.
pub open spec fn is_column_char(c: char) -> bool {
    char_is_alphanumeric(c) || c == '_' || c == '"' || c == '/' || c == '.' || c == '-'
}

/// One past the last column character of `t` before `k`, or 0 when there is none.
pub open spec fn last_run_end(t: Seq<char>, k: int) -> int
    decreases k,
{
    if k <= 0 {
        0
    } else if is_column_char(t[k - 1]) {
        k
    } else {
        last_run_end(t, k - 1)
    }
}

/// Start of the run of column characters that ends at `e`.
pub open spec fn run_start(t: Seq<char>, e: int) -> int
    decreases e,
{
    if e <= 0 || !is_column_char(t[e - 1]) {
        e
    } else {
        run_start(t, e - 1)
    }
}

/// The column that the text before a comparison operator ends with: the
/// last run of column characters, without double quotes, and without any
/// qualifier up to its last `.`; `None` when there is no such run.
pub open spec fn left_column(left_part: Seq<char>) -> Option<Seq<char>> {
    let t = trim(left_part);
    let e = last_run_end(t, t.len() as int);
    if e == 0 {
        None
    } else {
        let cleaned = remove_char(t.subrange(run_start(t, e), e), '"');
        match rfind(cleaned, seq!['.']) {
            Some(d) => Some(cleaned.skip(d + 1)),
            None => Some(cleaned),
        }
    }
}

fn is_column_char_exec(c: char) -> (r: bool)
    ensures
        r == is_column_char(c),
{
    is_alphanumeric(c) || c == '_' || c == '"' || c == '/' || c == '.' || c == '-'
}

/// The column that the text before a comparison operator ends with.
pub fn extract_left_column(left_part: &str) -> (r: Option<String>)
    ensures
        match left_column(left_part@) {
            Some(c) => r matches Some(s) && s@ == c,
            None => r is None,
        },
{
    let s = chars_of(left_part);
    let (a, b) = trim_bounds(&s, 0, s.len());
    proof {
        assert(s@.subrange(0, s@.len() as int) =~= s@);
    }
    let t = slice_vec(&s, a, b);
    let ghost tt = t@;
    assert(tt == trim(left_part@));
    let mut e: usize = t.len();
    while e > 0 && !is_column_char_exec(t[e - 1])
        invariant
            e <= t@.len(),
            tt == t@,
            last_run_end(tt, tt.len() as int) == last_run_end(tt, e as int),
        decreases e,
    {
        e = e - 1;
    }
    if e == 0 {
        return None;
    }
    let mut st: usize = e;
    while st > 0 && is_column_char_exec(t[st - 1])
        invariant
            st <= e <= t@.len(),
            tt == t@,
            run_start(tt, e as int) == run_start(tt, st as int),
        decreases st,
    {
        st = st - 1;
    }
    let run = slice_vec(&t, st, e);
    let cleaned = remove_char_vec(&run, '"');
    let dot = vec!['.'];
    assert(dot@ =~= seq!['.']);
    match rfind_exec(&cleaned, &dot) {
        Some(d) => {
            proof {
                lemma_rfind_before_bounds(cleaned@, dot@, cleaned@.len() + 1int);
            }
            let v = slice_vec(&cleaned, d + 1, cleaned.len());
            assert(v@ =~= cleaned@.skip(d + 1));
            Some(string_from_chars(&v))
        },
        None => Some(string_from_chars(&cleaned)),
    }
}

/// A literal of a `WHERE` clause.
#[derive(Debug, Clone, PartialEq)]
pub enum SqlValue {
    /// A quoted string, without its quotes.
    Text(String),
    Int(i64),
    Bool(bool),
    Null,
    /// A number with a fraction or an exponent, as written; it is read as a
    /// floating-point number where records are compared with it.
    Decimal(String),
}

/// A literal, as text and numbers.
pub enum Literal {
    Text(Seq<char>),
    Int(int),
    Bool(bool),
    Null,
    Decimal(Seq<char>),
}

impl View for SqlValue {
    type V = Literal;

    open spec fn view(&self) -> Literal {
        match self {
            SqlValue::Text(s) => Literal::Text(s@),
            SqlValue::Int(n) => Literal::Int(*n as int),
            SqlValue::Bool(b) => Literal::Bool(*b),
            SqlValue::Null => Literal::Null,
            SqlValue::Decimal(s) => Literal::Decimal(s@),
        }
    }
}

/// What a column is filtered by.
#[derive(Debug, Clone, PartialEq)]
pub enum FilterValue {
    /// `column = value`.
    Equals(SqlValue),
    /// `column IN (values)`.
    AnyOf(Vec<SqlValue>),
}

/// A filter, as literals.
pub enum Filter {
    Equals(Literal),
    AnyOf(Seq<Literal>),
}

impl View for FilterValue {
    type V = Filter;

    open spec fn view(&self) -> Filter {
        match self {
            FilterValue::Equals(v) => Filter::Equals(v@),
            FilterValue::AnyOf(vs) => Filter::AnyOf(vs@.map_values(|v: SqlValue| v@)),
        }
    }
}

/// A filtered column and its filter.
pub type FilterEntry = (Seq<char>, Filter);

/// Index of the first entry of `acc` for column `name`, at or after `k`.
pub open spec fn filter_index(acc: Seq<FilterEntry>, name: Seq<char>, k: int) -> Option<int>
    decreases acc.len() - k,
{
    if k < 0 || k >= acc.len() {
        None
    } else if acc[k].0 == name {
        Some(k)
    } else {
        filter_index(acc, name, k + 1)
    }
}

/// `acc` with column `name` filtered by `f`: its entry replaced, or a new one
/// appended, as a map insert does.
pub open spec fn put_filter(acc: Seq<FilterEntry>, name: Seq<char>, f: Filter) -> Seq<FilterEntry> {
    match filter_index(acc, name, 0) {
        Some(k) => acc.update(k, (name, f)),
        None => acc.push((name, f)),
    }
}

/// No column is filtered twice.
pub open spec fn distinct_columns(acc: Seq<FilterEntry>) -> bool {
    forall|i: int, j: int| 0 <= i < j < acc.len() ==> (#[trigger] acc[i]).0 != (#[trigger] acc[j]).0
}

/// `filter_index` finds the first entry of the name from `k` on, and its
/// absence means that no entry from `k` on has the name.
pub proof fn lemma_filter_index(acc: Seq<FilterEntry>, name: Seq<char>, k: int)
    requires
        0 <= k,
    ensures
        match filter_index(acc, name, k) {
            Some(i) => k <= i < acc.len() && acc[i].0 == name,
            None => forall|i: int| k <= i < acc.len() ==> (#[trigger] acc[i]).0 != name,
        },
    decreases acc.len() - k,
{
    if k < acc.len() && acc[k].0 != name {
        lemma_filter_index(acc, name, k + 1);
    }
}

/// Putting a filter keeps every column filtered once.
pub proof fn lemma_put_filter_distinct(acc: Seq<FilterEntry>, name: Seq<char>, f: Filter)
    requires
        distinct_columns(acc),
    ensures
        distinct_columns(put_filter(acc, name, f)),
{
    lemma_filter_index(acc, name, 0);
    let r = put_filter(acc, name, f);
    match filter_index(acc, name, 0) {
        Some(k) => {
            assert forall|i: int, j: int| 0 <= i < j < r.len() implies (#[trigger] r[i]).0 != (#[trigger] r[j]).0 by {
                assert(r[i].0 == acc[i].0);
                assert(r[j].0 == acc[j].0);
            }
        },
        None => {
            assert forall|i: int, j: int| 0 <= i < j < r.len() implies (#[trigger] r[i]).0 != (#[trigger] r[j]).0 by {
                if j < acc.len() {
                    assert(r[i] == acc[i] && r[j] == acc[j]);
                } else {
                    assert(r[i] == acc[i]);
                    assert(r[j].0 == name);
                }
            }
        },
    }
}

/// `acc` with `f` put on `col` when there is a column.
pub open spec fn with_column(acc: Seq<FilterEntry>, col: Option<Seq<char>>, f: Filter) -> Seq<FilterEntry> {
    match col {
        Some(k) => put_filter(acc, k, f),
        None => acc,
    }
}

/// A character of an unquoted value: alphanumeric, `.` or `-`.
pub open spec fn is_value_char(c: char) -> bool {
    char_is_alphanumeric(c) || c == '.' || c == '-'
}

/// Every character of `s` is an ASCII digit (there may be none).
pub open spec fn digits_only(s: Seq<char>) -> bool {
    forall|i: int| 0 <= i < s.len() ==> is_digit(#[trigger] s[i])
}

/// Digits with at most one `.` among them, and at least one digit.
pub open spec fn is_mantissa(m: Seq<char>) -> bool {
    let d = first_from(m, 0, |x: char| !is_digit(x));
    if d == m.len() {
        m.len() > 0
    } else {
        m[d] == '.' && digits_only(m.skip(d + 1)) && m.len() >= 2
    }
}

/// The digits of an exponent, after an optional `-`.
pub open spec fn is_exponent(x: Seq<char>) -> bool {
    let y = if x.len() > 0 && x[0] == '-' {
        x.skip(1)
    } else {
        x
    };
    y.len() > 0 && digits_only(y)
}

/// A decimal number as `f64`'s `FromStr` reads one from text made of
/// alphanumerics, `.` and `-`: an optional `-`, a mantissa, and an optional
/// exponent after `e` or `E`.
pub open spec fn is_decimal_text(v: Seq<char>) -> bool {
    let b = if v.len() > 0 && v[0] == '-' {
        v.skip(1)
    } else {
        v
    };
    let k = first_from(b, 0, |x: char| x == 'e' || x == 'E');
    is_mantissa(b.take(k)) && (k == b.len() || is_exponent(b.skip(k + 1)))
}

/// The literal that an unquoted value writes: `true`, `false` or `null` in
/// any letter case, an `i64`, or a decimal number.
pub open spec fn literal(v: Seq<char>) -> Option<Literal> {
    let l = lower_seq(v);
    if l == "true"@ {
        Some(Literal::Bool(true))
    } else if l == "false"@ {
        Some(Literal::Bool(false))
    } else if l == "null"@ {
        Some(Literal::Null)
    } else {
        match parse_int(v) {
            Some(n) => Some(Literal::Int(n)),
            None => if is_decimal_text(v) {
                Some(Literal::Decimal(v))
            } else {
                None
            },
        }
    }
}

/// The value that starts at `i` of `c`, after whitespace, and the position
/// after it: a quoted string up to the next quote, or else the run of value
/// characters when it writes a literal.
pub open spec fn right_value(c: Seq<char>, i: int) -> Option<(Literal, int)> {
    let t = i + span_while(c, i, |c: char| char_is_whitespace(c));
    let quoted = if 0 <= t < c.len() && c[t] == '\'' {
        find_from(c, seq!['\''], t + 1)
    } else {
        None
    };
    match quoted {
        Some(e) => Some((Literal::Text(c.subrange(t + 1, e)), e + 1)),
        None => {
            let n = span_while(c, t, |c: char| is_value_char(c));
            if n == 0 {
                None
            } else {
                match literal(c.subrange(t, t + n)) {
                    Some(l) => Some((l, t + n)),
                    None => None,
                }
            }
        },
    }
}

/// A value read ends after where it starts and within the text.
pub proof fn lemma_right_value_end(c: Seq<char>, i: int)
    requires
        0 <= i <= c.len(),
    ensures
        right_value(c, i) matches Some((_, e)) ==> i < e <= c.len(),
{
    let ws = |c: char| char_is_whitespace(c);
    lemma_span_while_all(c, i, ws);
    let t = i + span_while(c, i, ws);
    if 0 <= t < c.len() && c[t] == '\'' {
        lemma_find_from_ge(c, seq!['\''], t + 1);
    }
    lemma_span_while_all(c, t, |c: char| is_value_char(c));
}

fn value_end(c: &Vec<char>, t: usize) -> (r: usize)
    requires
        t <= c.len(),
    ensures
        r == t + span_while(c@, t as int, |c: char| is_value_char(c)),
        r <= c.len(),
{
    let ghost p = |c: char| is_value_char(c);
    let mut j: usize = t;
    while j < c.len() && (is_alphanumeric(c[j]) || c[j] == '.' || c[j] == '-')
        invariant
            t <= j <= c.len(),
            span_while(c@, t as int, p) == (j - t) + span_while(c@, j as int, p),
            p == (|c: char| is_value_char(c)),
        decreases c.len() - j,
    {
        assert(p(c@[j as int]));
        j = j + 1;
    }
    j
}

fn first_exponent_mark(b: &Vec<char>) -> (r: usize)
    ensures
        r == first_from(b@, 0, |x: char| x == 'e' || x == 'E'),
        r <= b.len(),
{
    let ghost p = |x: char| x == 'e' || x == 'E';
    let mut j: usize = 0;
    while j < b.len()
        invariant
            j <= b.len(),
            first_from(b@, 0, p) == first_from(b@, j as int, p),
            p == (|x: char| x == 'e' || x == 'E'),
        decreases b.len() - j,
    {
        if b[j] == 'e' || b[j] == 'E' {
            assert(p(b@[j as int]));
            return j;
        }
        j = j + 1;
    }
    j
}

fn first_non_digit(m: &Vec<char>) -> (r: usize)
    ensures
        r == first_from(m@, 0, |x: char| !is_digit(x)),
        r <= m.len(),
{
    let ghost p = |x: char| !is_digit(x);
    let mut j: usize = 0;
    while j < m.len()
        invariant
            j <= m.len(),
            first_from(m@, 0, p) == first_from(m@, j as int, p),
            p == (|x: char| !is_digit(x)),
        decreases m.len() - j,
    {
        if !('0' <= m[j] && m[j] <= '9') {
            assert(p(m@[j as int]));
            return j;
        }
        j = j + 1;
    }
    j
}

fn only_digits(s: &Vec<char>) -> (r: bool)
    ensures
        r == digits_only(s@),
{
    let mut j: usize = 0;
    while j < s.len()
        invariant
            j <= s.len(),
            forall|k: int| 0 <= k < j ==> is_digit(#[trigger] s@[k]),
        decreases s.len() - j,
    {
        if !('0' <= s[j] && s[j] <= '9') {
            return false;
        }
        j = j + 1;
    }
    true
}

fn decimal_text(v: &Vec<char>) -> (r: bool)
    ensures
        r == is_decimal_text(v@),
{
    let b = if v.len() > 0 && v[0] == '-' {
        slice_vec(v, 1, v.len())
    } else {
        slice_vec(v, 0, v.len())
    };
    assert(v@.subrange(1, v@.len() as int) =~= v@.skip(1));
    assert(v@.subrange(0, v@.len() as int) =~= v@);
    let k = first_exponent_mark(&b);
    let m = slice_vec(&b, 0, k);
    assert(m@ =~= b@.take(k as int));
    let d = first_non_digit(&m);
    let mantissa = if d == m.len() {
        m.len() > 0
    } else {
        let tail = slice_vec(&m, d + 1, m.len());
        assert(tail@ =~= m@.skip(d + 1));
        m[d] == '.' && only_digits(&tail) && m.len() >= 2
    };
    if !mantissa {
        return false;
    }
    if k == b.len() {
        return true;
    }
    let x = slice_vec(&b, k + 1, b.len());
    assert(x@ =~= b@.skip(k + 1));
    let y = if x.len() > 0 && x[0] == '-' {
        slice_vec(&x, 1, x.len())
    } else {
        slice_vec(&x, 0, x.len())
    };
    assert(x@.subrange(1, x@.len() as int) =~= x@.skip(1));
    assert(x@.subrange(0, x@.len() as int) =~= x@);
    y.len() > 0 && only_digits(&y)
}

fn literal_of(v: &Vec<char>) -> (r: Option<SqlValue>)
    ensures
        match literal(v@) {
            Some(l) => r matches Some(x) && x@ == l,
            None => r is None,
        },
{
    let l = lower_vec(v);
    if eq_chars(&l, &chars_of("true")) {
        Some(SqlValue::Bool(true))
    } else if eq_chars(&l, &chars_of("false")) {
        Some(SqlValue::Bool(false))
    } else if eq_chars(&l, &chars_of("null")) {
        Some(SqlValue::Null)
    } else {
        match parse_i64(v) {
            Some(n) => Some(SqlValue::Int(n)),
            None => if decimal_text(v) {
                Some(SqlValue::Decimal(string_from_chars(v)))
            } else {
                None
            },
        }
    }
}

fn right_value_of(c: &Vec<char>, i: usize) -> (r: Option<(SqlValue, usize)>)
    requires
        i <= c.len(),
    ensures
        match right_value(c@, i as int) {
            Some((l, e)) => r matches Some((x, n)) && x@ == l && n == e,
            None => r is None,
        },
{
    let t = skip_ws(c, i);
    if t < c.len() && c[t] == '\'' {
        let quote = vec!['\''];
        assert(quote@ =~= seq!['\'']);
        match find_from_exec(c, &quote, t + 1) {
            Some(e) => {
                proof {
                    lemma_find_from_ge(c@, quote@, t + 1);
                }
                let inner = slice_vec(c, t + 1, e);
                return Some((SqlValue::Text(string_from_chars(&inner)), e + 1));
            },
            None => {},
        }
    }
    let ve = value_end(c, t);
    proof {
        lemma_span_while_all(c@, t as int, |c: char| is_value_char(c));
    }
    if ve == t {
        return None;
    }
    let v = slice_vec(c, t, ve);
    match literal_of(&v) {
        Some(x) => Some((x, ve)),
        None => None,
    }
}

/// ` = `, the equality operator.
pub open spec fn equals_op() -> Seq<char> {
    seq![' ', '=', ' ']
}

/// ` in `, the list operator, looked for in the lower-cased text.
pub open spec fn in_op() -> Seq<char> {
    seq![' ', 'i', 'n', ' ']
}

/// The equalities found from `pos` of the SQL `c` (whose lower-cased copy
/// is `l`) on, put into `acc`: after each ` = `, the column that the text
/// since the last stop ends with and the value that follows; the scan goes
/// on after the value, or after the operator when no value reads there.
pub open spec fn equality_scan(l: Seq<char>, c: Seq<char>, pos: int, acc: Seq<FilterEntry>) -> Seq<FilterEntry>
    decreases c.len() - pos,
{
    if pos < 0 || pos > c.len() || l.len() != c.len() {
        acc
    } else {
        match find_from(l, equals_op(), pos) {
            None => acc,
            Some(a) => {
                proof {
                    lemma_find_from_ge(l, equals_op(), pos);
                    lemma_right_value_end(c, a + 3);
                }
                let col = left_column(c.subrange(pos, a));
                match right_value(c, a + 3) {
                    Some((v, e)) => equality_scan(l, c, e, with_column(acc, col, Filter::Equals(v))),
                    None => equality_scan(l, c, a + 3, acc),
                }
            },
        }
    }
}

/// The value of one item of an `IN` list: a quoted string, or a value that
/// reads; nothing for an empty or unreadable item.
pub open spec fn list_item(t: Seq<char>) -> Seq<Literal> {
    if t.len() >= 2 && t[0] == '\'' && t.last() == '\'' {
        seq![Literal::Text(t.subrange(1, t.len() - 1))]
    } else if t.len() > 0 {
        match right_value(t, 0) {
            Some((v, _)) => seq![v],
            None => Seq::empty(),
        }
    } else {
        Seq::empty()
    }
}

/// The values of the comma-separated items of an `IN` list, each trimmed.
pub open spec fn list_items(fields: Seq<Seq<char>>) -> Seq<Literal>
    decreases fields.len(),
{
    if fields.len() == 0 {
        Seq::empty()
    } else {
        list_items(fields.drop_last()) + list_item(trim(fields.last()))
    }
}

/// The `IN` lists found from `pos` on, put into `acc`: after each ` in `
/// followed by a parenthesised list, the column before it (unless it is the
/// `not` of a `NOT IN`) and the list's values; the scan goes on after the
/// list, or after the operator when no list follows.
pub open spec fn list_scan(l: Seq<char>, c: Seq<char>, pos: int, acc: Seq<FilterEntry>) -> Seq<FilterEntry>
    decreases c.len() - pos,
{
    if pos < 0 || pos > c.len() || l.len() != c.len() {
        acc
    } else {
        match find_from(l, in_op(), pos) {
            None => acc,
            Some(a) => {
                let t = (a + 4) + span_while(c, a + 4, |c: char| char_is_whitespace(c));
                let close = if 0 <= t < c.len() && c[t] == '(' {
                    find_from(c, seq![')'], t)
                } else {
                    None
                };
                proof {
                    lemma_find_from_ge(l, in_op(), pos);
                    lemma_span_while_all(c, a + 4, |c: char| char_is_whitespace(c));
                    if 0 <= t < c.len() && c[t] == '(' {
                        lemma_find_from_ge(c, seq![')'], t);
                    }
                }
                let col = left_column(c.subrange(pos, a));
                match close {
                    Some(cp) => {
                        let items = list_items(split_on(c.subrange(t + 1, cp), ','));
                        let next = match col {
                            Some(k) => if lower_seq(k) != "not"@ {
                                put_filter(acc, k, Filter::AnyOf(items))
                            } else {
                                acc
                            },
                            None => acc,
                        };
                        list_scan(l, c, cp + 1, next)
                    },
                    None => list_scan(l, c, a + 4, acc),
                }
            },
        }
    }
}

/// The filters of a query: its equalities, then its `IN` lists, a column
/// filtered again keeping its place and taking the later filter.
pub open spec fn sql_filters(sql: Seq<char>) -> Seq<FilterEntry> {
    let l = lower_seq(sql);
    list_scan(l, sql, 0, equality_scan(l, sql, 0, Seq::empty()))
}

/// The filters of a query, by column, in the order in which each column was
/// first filtered.
#[derive(Debug, Clone)]
pub struct SqlFilters {
    entries: Vec<(String, FilterValue)>,
}

impl View for SqlFilters {
    type V = Seq<FilterEntry>;

    closed spec fn view(&self) -> Seq<FilterEntry> {
        self.entries@.map_values(|e: (String, FilterValue)| (e.0@, e.1@))
    }
}

impl SqlFilters {
    fn new() -> (r: SqlFilters)
        ensures
            r@ == Seq::<FilterEntry>::empty(),
    {
        let r = SqlFilters { entries: Vec::new() };
        assert(r@ =~= Seq::<FilterEntry>::empty());
        r
    }

    /// Each filtered column with its filter, in the order in which the
    /// columns were first filtered.
    pub fn entries(&self) -> (r: &Vec<(String, FilterValue)>)
        ensures
            r@.map_values(|e: (String, FilterValue)| (e.0@, e.1@)) == self@,
    {
        &self.entries
    }

    /// Number of filtered columns.
    pub fn len(&self) -> (r: usize)
        ensures
            r == self@.len(),
    {
        self.entries.len()
    }

    fn position(&self, name: &str) -> (r: Option<usize>)
        ensures
            match r {
                Some(k) => filter_index(self@, name@, 0) == Some(k as int) && k < self@.len(),
                None => filter_index(self@, name@, 0) is None,
            },
    {
        let mut k: usize = 0;
        while k < self.entries.len()
            invariant
                k <= self.entries.len(),
                filter_index(self@, name@, 0) == filter_index(self@, name@, k as int),
            decreases self.entries.len() - k,
        {
            if same_text(self.entries[k].0.as_str(), name) {
                return Some(k);
            }
            k = k + 1;
        }
        None
    }

    /// The filter on a column, if it is filtered.
    pub fn get(&self, name: &str) -> (r: Option<&FilterValue>)
        ensures
            match filter_index(self@, name@, 0) {
                Some(k) => r matches Some(v) && v@ == self@[k].1,
                None => r is None,
            },
    {
        match self.position(name) {
            Some(k) => Some(&self.entries[k].1),
            None => None,
        }
    }

    fn put(&mut self, name: String, value: FilterValue)
        ensures
            final(self)@ == put_filter(old(self)@, name@, value@),
            distinct_columns(old(self)@) ==> distinct_columns(final(self)@),
    {
        proof {
            if distinct_columns(self@) {
                lemma_put_filter_distinct(self@, name@, value@);
            }
        }
        match self.position(name.as_str()) {
            Some(k) => {
                let ghost before = self@;
                let ghost entry = (name@, value@);
                self.entries.set(k, (name, value));
                assert(self@ =~= before.update(k as int, entry));
            },
            None => {
                let ghost before = self@;
                let ghost entry = (name@, value@);
                self.entries.push((name, value));
                assert(self@ =~= before.push(entry));
            },
        }
    }
}

fn equality_filters(l: &Vec<char>, c: &Vec<char>) -> (r: SqlFilters)
    requires
        l@.len() == c@.len(),
    ensures
        r@ == equality_scan(l@, c@, 0, Seq::empty()),
        distinct_columns(r@),
{
    let op = vec![' ', '=', ' '];
    assert(op@ =~= equals_op());
    let mut filters = SqlFilters::new();
    let mut pos: usize = 0;
    while pos <= c.len()
        invariant
            l@.len() == c@.len(),
            op@ == equals_op(),
            equality_scan(l@, c@, 0, Seq::empty()) == equality_scan(l@, c@, pos as int, filters@),
            distinct_columns(filters@),
        decreases c@.len() + 1 - pos,
    {
        match find_from_exec(l, &op, pos) {
            None => {
                return filters;
            },
            Some(a) => {
                proof {
                    lemma_find_from_ge(l@, op@, pos as int);
                    lemma_right_value_end(c@, a + 3);
                }
                let left = string_from_chars(&slice_vec(c, pos, a));
                let col = extract_left_column(left.as_str());
                match right_value_of(c, a + 3) {
                    Some((v, e)) => {
                        match col {
                            Some(k) => {
                                filters.put(k, FilterValue::Equals(v));
                            },
                            None => {},
                        }
                        pos = e;
                    },
                    None => {
                        pos = a + 3;
                    },
                }
            },
        }
    }
    filters
}

fn list_values(content: &str) -> (r: Vec<SqlValue>)
    ensures
        r@.map_values(|v: SqlValue| v@) == list_items(split_on(content@, ',')),
{
    let fields = split_chars(content, ',');
    let ghost parts = split_on(content@, ',');
    let mut out: Vec<SqlValue> = Vec::new();
    let mut i: usize = 0;
    assert(parts.take(0) =~= Seq::<Seq<char>>::empty());
    assert(out@.map_values(|v: SqlValue| v@) =~= Seq::<Literal>::empty());
    while i < fields.len()
        invariant
            i <= fields@.len(),
            parts == split_on(content@, ','),
            fields@.len() == parts.len(),
            forall|k: int| 0 <= k < fields@.len() ==> #[trigger] fields@[k]@ == parts[k],
            out@.map_values(|v: SqlValue| v@) == list_items(parts.take(i as int)),
        decreases fields@.len() - i,
    {
        let f = &fields[i];
        let t = trim_vec(f, 0, f.len());
        assert(f@.subrange(0, f@.len() as int) =~= f@);
        let ghost before = out@.map_values(|v: SqlValue| v@);
        assert(parts.take(i + 1).drop_last() =~= parts.take(i as int));
        assert(parts.take(i + 1).last() == parts[i as int]);
        if t.len() >= 2 && t[0] == '\'' && t[t.len() - 1] == '\'' {
            let inner = slice_vec(&t, 1, t.len() - 1);
            out.push(SqlValue::Text(string_from_chars(&inner)));
            assert(out@.map_values(|v: SqlValue| v@) =~= before + list_item(t@));
        } else if t.len() > 0 {
            match right_value_of(&t, 0) {
                Some((v, _)) => {
                    out.push(v);
                    assert(out@.map_values(|v: SqlValue| v@) =~= before + list_item(t@));
                },
                None => {
                    assert(out@.map_values(|v: SqlValue| v@) =~= before + list_item(t@));
                },
            }
        } else {
            assert(out@.map_values(|v: SqlValue| v@) =~= before + list_item(t@));
        }
        i = i + 1;
    }
    assert(parts.take(fields@.len() as int) =~= parts);
    out
}

fn list_filters(l: &Vec<char>, c: &Vec<char>, found: SqlFilters) -> (r: SqlFilters)
    requires
        l@.len() == c@.len(),
        distinct_columns(found@),
    ensures
        r@ == list_scan(l@, c@, 0, found@),
        distinct_columns(r@),
{
    let op = vec![' ', 'i', 'n', ' '];
    assert(op@ =~= in_op());
    let close = vec![')'];
    assert(close@ =~= seq![')']);
    let ghost start = found@;
    let mut filters = found;
    let mut pos: usize = 0;
    while pos <= c.len()
        invariant
            l@.len() == c@.len(),
            op@ == in_op(),
            close@ == seq![')'],
            start == found@,
            list_scan(l@, c@, 0, start) == list_scan(l@, c@, pos as int, filters@),
            distinct_columns(filters@),
        decreases c@.len() + 1 - pos,
    {
        match find_from_exec(l, &op, pos) {
            None => {
                return filters;
            },
            Some(a) => {
                proof {
                    lemma_find_from_ge(l@, op@, pos as int);
                }
                let left = string_from_chars(&slice_vec(c, pos, a));
                let col = extract_left_column(left.as_str());
                let t = skip_ws(c, a + 4);
                proof {
                    lemma_span_while_all(c@, a + 4, |c: char| char_is_whitespace(c));
                }
                let mut next = a + 4;
                if t < c.len() && c[t] == '(' {
                    match find_from_exec(c, &close, t) {
                        Some(cp) => {
                            proof {
                                lemma_find_from_ge(c@, close@, t as int);
                                assert(c@[cp + 0] == close@[0]);
                            }
                            let content = string_from_chars(&slice_vec(c, t + 1, cp));
                            let items = list_values(content.as_str());
                            match col {
                                Some(k) => {
                                    let kl = lower_vec(&chars_of(k.as_str()));
                                    if !eq_chars(&kl, &chars_of("not")) {
                                        filters.put(k, FilterValue::AnyOf(items));
                                    }
                                },
                                None => {},
                            }
                            next = cp + 1;
                        },
                        None => {},
                    }
                }
                pos = next;
            },
        }
    }
    filters
}

/// The filters of a query's `WHERE` clause: for each `column = value`
/// equality and each `column IN (values)` list, the column and what it is
/// compared to; a column met again takes the later filter, and a list
/// comes after any equality.
pub fn extract_filters_from_sql(sql: &str) -> (r: SqlFilters)
    ensures
        r@ == sql_filters(sql@),
        distinct_columns(r@),
{
    let c = chars_of(sql);
    let l = lower_vec(&c);
    let eq = equality_filters(&l, &c);
    list_filters(&l, &c, eq)
}

} // verus!
