//! Where a column of the final `SELECT` of a comparison query takes its
//! value from: the current window's row, the row at the same position of a
//! previous window (`prev_*`), the first row of a statistics sub-query
//! (`smart_*`), or a z-score against such statistics.
use vstd::prelude::*;
use vstd::string::StringExecFns;
use crate::sql_parse::entity::{clean_cte_field, cte_field, cte_name, extract_cte_name};
use crate::text::{
    same_text,
    chars_of, contains_char, find_from, find_from_exec, joined, matches_at, matches_at_exec, strip_quotes,
    strip_quotes_vec, string_from_chars, trim, trim_vec,
};

verus! {

/// The source of a final column's value.
#[derive(Debug)]
pub enum FinalSource {
    /// `(field - mean_field) / std_field` against the first row of the
    /// statistics sub-query `smart`.
    ZScore { smart: String },
    /// A field of the current window's row.
    Current { field: String },
    /// A field of the row at the same position in the previous window `cte`.
    Previous { cte: String, field: String },
    /// A field of the first row of the statistics sub-query `cte`.
    Smart { cte: String, field: String },
}

/// An expression without quotes and surrounding whitespace.
pub open spec fn cleaned_expr(expr: Seq<char>) -> Seq<char> {
    trim(strip_quotes(expr))
}

/// `pat` occurs in `s`.
pub open spec fn has(s: Seq<char>, pat: Seq<char>) -> bool {
    find_from(s, pat, 0) is Some
}

/// A cleaned expression computes a z-score.
pub open spec fn is_z_score(c: Seq<char>) -> bool {
    has(c, "z_score"@) || (c.contains('-') && c.contains('/') && has(c, "mean_"@) && has(c, "std_"@))
}

/// The source of a final column, as text.
pub enum Source {
    ZScore { smart: Seq<char> },
    Current { field: Seq<char> },
    Previous { cte: Seq<char>, field: Seq<char> },
    Smart { cte: Seq<char>, field: Seq<char> },
}

impl View for FinalSource {
    type V = Source;

    open spec fn view(&self) -> Source {
        match self {
            FinalSource::ZScore { smart } => Source::ZScore { smart: smart@ },
            FinalSource::Current { field } => Source::Current { field: field@ },
            FinalSource::Previous { cte, field } => Source::Previous { cte: cte@, field: field@ },
            FinalSource::Smart { cte, field } => Source::Smart { cte: cte@, field: field@ },
        }
    }
}

/// The source of a final column: a z-score against the statistics
/// sub-query that the expression names (`smart_0` when it names none); else
/// a field of the current row (`c.` or `c.bucket`), of a previous window
/// (`prev_*`) or of a statistics sub-query (`smart_*`), in that order of
/// precedence; else the whole cleaned expression as a field of the current row.
pub open spec fn final_source(expr: Seq<char>) -> Source {
    let c = cleaned_expr(expr);
    if is_z_score(c) {
        Source::ZScore { smart: if has(c, "smart_"@) { cte_name(c, "smart_"@) } else { "smart_0"@ } }
    } else if matches_at(c, "c."@, 0) || has(c, "c.bucket"@) {
        Source::Current { field: cte_field(c, "c."@) }
    } else if has(c, "prev_"@) {
        Source::Previous { cte: cte_name(c, "prev_"@), field: cte_field(c, cte_name(c, "prev_"@) + "."@) }
    } else if has(c, "smart_"@) {
        Source::Smart { cte: cte_name(c, "smart_"@), field: cte_field(c, cte_name(c, "smart_"@) + "."@) }
    } else {
        Source::Current { field: c }
    }
}

fn has_text(s: &Vec<char>, pat: &str) -> (r: bool)
    ensures
        r == has(s@, pat@),
{
    let p = chars_of(pat);
    find_from_exec(s, &p, 0).is_some()
}

/// Where a column of the final `SELECT` takes its value from.
pub fn final_expression_source(expr: &str) -> (r: FinalSource)
    ensures
        r@ == final_source(expr@),
{
    let e = chars_of(expr);
    let q = strip_quotes_vec(&e);
    let c = trim_vec(&q, 0, q.len());
    proof {
        assert(q@.subrange(0, q@.len() as int) =~= q@);
    }
    let text = string_from_chars(&c);
    let t = text.as_str();
    let z = has_text(&c, "z_score") || (contains_char(&c, '-') && contains_char(&c, '/') && has_text(&c, "mean_")
        && has_text(&c, "std_"));
    if z {
        let smart = if has_text(&c, "smart_") {
            extract_cte_name(t, "smart_")
        } else {
            String::from_str("smart_0")
        };
        return FinalSource::ZScore { smart };
    }
    let cdot = chars_of("c.");
    if matches_at_exec(&c, &cdot, 0) || has_text(&c, "c.bucket") {
        FinalSource::Current { field: clean_cte_field(t, "c.") }
    } else if has_text(&c, "prev_") {
        let cte = extract_cte_name(t, "prev_");
        let prefix = joined(cte.as_str(), ".");
        FinalSource::Previous { field: clean_cte_field(t, prefix.as_str()), cte }
    } else if has_text(&c, "smart_") {
        let cte = extract_cte_name(t, "smart_");
        let prefix = joined(cte.as_str(), ".");
        FinalSource::Smart { field: clean_cte_field(t, prefix.as_str()), cte }
    } else {
        FinalSource::Current { field: text }
    }
}

/// A result row: its columns by name, the first of a name counting.
pub type ResultRow<V> = Vec<(String, V)>;

/// The rows of named sub-queries, the first set of a name counting.
pub type RowSets<V> = Vec<(String, Vec<ResultRow<V>>)>;

/// Index of the first column of `row`, at or after `k`, named `name`.
pub open spec fn column_index<V>(row: Seq<(String, V)>, name: Seq<char>, k: int) -> Option<int>
    decreases row.len() - k,
{
    if k < 0 || k >= row.len() {
        None
    } else if row[k].0@ == name {
        Some(k)
    } else {
        column_index(row, name, k + 1)
    }
}

/// The value of the column `name` of `row`.
pub open spec fn column_value<V>(row: Seq<(String, V)>, name: Seq<char>) -> Option<V> {
    match column_index(row, name, 0) {
        Some(k) => Some(row[k].1),
        None => None,
    }
}

/// Index of the first set of `sets`, at or after `k`, named `name`.
pub open spec fn set_index<V>(sets: Seq<(String, Vec<ResultRow<V>>)>, name: Seq<char>, k: int) -> Option<int>
    decreases sets.len() - k,
{
    if k < 0 || k >= sets.len() {
        None
    } else if sets[k].0@ == name {
        Some(k)
    } else {
        set_index(sets, name, k + 1)
    }
}

/// The row at position `i` of the set `name`.
pub open spec fn row_of<V>(sets: Seq<(String, Vec<ResultRow<V>>)>, name: Seq<char>, i: int) -> Option<Seq<(String, V)>> {
    match set_index(sets, name, 0) {
        Some(k) => if 0 <= i < sets[k].1@.len() {
            Some(sets[k].1@[i]@)
        } else {
            None
        },
        None => None,
    }
}

/// The value of `field` in the row at position `i` of the set `name`.
pub open spec fn set_value<V>(sets: Seq<(String, Vec<ResultRow<V>>)>, name: Seq<char>, i: int, field: Seq<char>) -> Option<V> {
    match row_of(sets, name, i) {
        Some(row) => column_value(row, field),
        None => None,
    }
}

/// Index of the first column of `row`, at or after `k`, whose name occurs in `c`.
pub open spec fn named_column<V>(row: Seq<(String, V)>, c: Seq<char>, k: int) -> Option<int>
    decreases row.len() - k,
{
    if k < 0 || k >= row.len() {
        None
    } else if has(c, row[k].0@) {
        Some(k)
    } else {
        named_column(row, c, k + 1)
    }
}

/// The value of a final column.
#[derive(Debug, PartialEq)]
pub enum FinalValue<'a, V> {
    /// The value read from a row.
    Value(&'a V),
    /// Nothing was found.
    Null,
    /// What a z-score is computed from: the current row's value of the first
    /// of its columns that the expression names, and that column's `mean_`
    /// and `std_` values in the first row of the statistics sub-query; each
    /// absent when it is not found.
    ZScore { value: Option<&'a V>, mean: Option<&'a V>, std: Option<&'a V> },
}

/// `r` holds the value `v`, or nothing when there is none.
pub open spec fn holds<V>(r: Option<&V>, v: Option<V>) -> bool {
    match v {
        Some(x) => r matches Some(y) && *y == x,
        None => r is None,
    }
}

/// `r` is the value `v` as a final value: the value, or null.
pub open spec fn value_or_null<V>(r: FinalValue<'_, V>, v: Option<V>) -> bool {
    match v {
        Some(x) => r matches FinalValue::Value(y) && *y == x,
        None => r is Null,
    }
}

/// The value of a final column whose expression, cleaned, is `c` and whose
/// source is `src`, read from the current row, the row at position `idx`
/// of a previous window, or the first row of a statistics sub-query.
pub open spec fn final_value_is<V>(
    r: FinalValue<'_, V>,
    c: Seq<char>,
    src: Source,
    current: Option<Seq<(String, V)>>,
    prev: Seq<(String, Vec<ResultRow<V>>)>,
    smart: Seq<(String, Vec<ResultRow<V>>)>,
    idx: int,
) -> bool {
    match src {
        Source::ZScore { smart: name } => {
            let found = match current {
                Some(row) => match named_column(row, c, 0) {
                    Some(j) => Some((row[j].0@, row[j].1)),
                    None => None,
                },
                None => None,
            };
            &&& r matches FinalValue::ZScore { value, mean, std }
            &&& match found {
                Some((key, v)) => {
                    &&& holds(value, Some(v))
                    &&& holds(mean, set_value(smart, name, 0, "mean_"@ + key))
                    &&& holds(std, set_value(smart, name, 0, "std_"@ + key))
                },
                None => value is None && mean is None && std is None,
            }
        },
        Source::Current { field } => value_or_null(
            r,
            match current {
                Some(row) => column_value(row, field),
                None => None,
            },
        ),
        Source::Previous { cte, field } => value_or_null(r, set_value(prev, cte, idx, field)),
        Source::Smart { cte, field } => value_or_null(r, set_value(smart, cte, 0, field)),
    }
}

fn column_of<'a, V>(row: &'a ResultRow<V>, name: &str) -> (r: Option<&'a V>)
    ensures
        holds(r, column_value(row@, name@)),
{
    let mut k: usize = 0;
    while k < row.len()
        invariant
            k <= row@.len(),
            column_index(row@, name@, 0) == column_index(row@, name@, k as int),
        decreases row@.len() - k,
    {
        if same_text(row[k].0.as_str(), name) {
            return Some(&row[k].1);
        }
        k = k + 1;
    }
    None
}

fn set_row<'a, V>(sets: &'a RowSets<V>, name: &str, i: usize) -> (r: Option<&'a ResultRow<V>>)
    ensures
        match row_of(sets@, name@, i as int) {
            Some(row) => r matches Some(x) && x@ == row,
            None => r is None,
        },
{
    let mut k: usize = 0;
    while k < sets.len()
        invariant
            k <= sets@.len(),
            set_index(sets@, name@, 0) == set_index(sets@, name@, k as int),
        decreases sets@.len() - k,
    {
        if same_text(sets[k].0.as_str(), name) {
            let rows = &sets[k].1;
            if i < rows.len() {
                return Some(&rows[i]);
            } else {
                return None;
            }
        }
        k = k + 1;
    }
    None
}

fn set_column<'a, V>(sets: &'a RowSets<V>, name: &str, i: usize, field: &str) -> (r: Option<&'a V>)
    ensures
        holds(r, set_value(sets@, name@, i as int, field@)),
{
    match set_row(sets, name, i) {
        Some(row) => column_of(row, field),
        None => None,
    }
}

fn first_named_column<V>(row: &ResultRow<V>, c: &Vec<char>) -> (r: Option<usize>)
    ensures
        match r {
            Some(j) => named_column(row@, c@, 0) == Some(j as int) && j < row@.len(),
            None => named_column(row@, c@, 0) is None,
        },
{
    let mut k: usize = 0;
    while k < row.len()
        invariant
            k <= row@.len(),
            named_column(row@, c@, 0) == named_column(row@, c@, k as int),
        decreases row@.len() - k,
    {
        if has_text(c, row[k].0.as_str()) {
            return Some(k);
        }
        k = k + 1;
    }
    None
}

/// The value of a column of the final `SELECT` of a comparison query, read
/// from the current window's row, the row at position `idx` of a previous
/// window, or the first row of a statistics sub-query; for a z-score, the
/// values it is computed from.
pub fn evaluate_final_expression<'a, V>(
    expr: &str,
    current_row: Option<&'a ResultRow<V>>,
    prev_rows: &'a RowSets<V>,
    smart_rows: &'a RowSets<V>,
    idx: usize,
) -> (r: FinalValue<'a, V>)
    ensures
        final_value_is(
            r,
            cleaned_expr(expr@),
            final_source(expr@),
            match current_row {
                Some(row) => Some(row@),
                None => None,
            },
            prev_rows@,
            smart_rows@,
            idx as int,
        ),
{
    let source = final_expression_source(expr);
    match source {
        FinalSource::ZScore { smart } => {
            let e = chars_of(expr);
            let q = strip_quotes_vec(&e);
            let c = trim_vec(&q, 0, q.len());
            proof {
                assert(q@.subrange(0, q@.len() as int) =~= q@);
            }
            match current_row {
                Some(row) => match first_named_column(row, &c) {
                    Some(j) => {
                        let key = row[j].0.as_str();
                        let mean_key = joined("mean_", key);
                        let std_key = joined("std_", key);
                        FinalValue::ZScore {
                            value: Some(&row[j].1),
                            mean: set_column(smart_rows, smart.as_str(), 0, mean_key.as_str()),
                            std: set_column(smart_rows, smart.as_str(), 0, std_key.as_str()),
                        }
                    },
                    None => FinalValue::ZScore { value: None, mean: None, std: None },
                },
                None => FinalValue::ZScore { value: None, mean: None, std: None },
            }
        },
        FinalSource::Current { field } => match current_row {
            Some(row) => match column_of(row, field.as_str()) {
                Some(v) => FinalValue::Value(v),
                None => FinalValue::Null,
            },
            None => FinalValue::Null,
        },
        FinalSource::Previous { cte, field } => match set_column(prev_rows, cte.as_str(), idx, field.as_str()) {
            Some(v) => FinalValue::Value(v),
            None => FinalValue::Null,
        },
        FinalSource::Smart { cte, field } => match set_column(smart_rows, cte.as_str(), 0, field.as_str()) {
            Some(v) => FinalValue::Value(v),
            None => FinalValue::Null,
        },
    }
}

} // verus!
