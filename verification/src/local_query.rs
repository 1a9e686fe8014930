//! The in-memory query of the local lake engine: what a compiled SQL query
//! asks of the records of its entity, which records it keeps, the rows it
//! projects from them, and their order and limit. Reading the records from
//! storage, and the floating-point arithmetic of aggregates, are the
//! caller's.
use vstd::prelude::*;
use vstd::string::StringExecFns;
use crate::codice::AttrType;
use crate::errors::{DomainError, ErrorCode};
use crate::handlers::{field_of, find_field, JsonValue};
use crate::json::decimal;
use crate::lake::{
    bucket_field, bucket_interval, column_read, column_read_is, in_window, truncatable, truncate_timestamp,
    truncated, AttrTypeMap, ColumnRead,
};
use crate::numbers::{parse_i64, parse_int};
use crate::sql_parse::entity::{
    clean_expr_field, clean_field, extract_entity_from_sql, extract_limit_from_sql, sql_entity, sql_limit,
};
use crate::sql_parse::filters::{extract_filters_from_sql, sql_filters, SqlFilters};
use crate::sql_parse::projection::{extract_projected_columns, projected_columns, ColumnView, ProjectedColumn};
use crate::sql_parse::time_range::{extract_timestamp_range_from_sql, time_range};
use crate::text::{chars_of, lower_seq, lower_vec, same_text};

verus! {

// ------------------------------------------------------------------- plan

/// What a compiled query asks of the records of its entity.
#[derive(Debug)]
pub struct LocalQueryPlan {
    pub entity: String,
    pub columns: Vec<ProjectedColumn>,
    pub limit: Option<u32>,
    pub filters: SqlFilters,
    pub start: Option<i64>,
    pub end: Option<i64>,
    /// Some projected column is an aggregate.
    pub aggregate: bool,
    /// How many matching records are kept at most.
    pub max_scan_records: usize,
}

/// The message of a query whose entity cannot be read.
pub open spec fn no_entity_detail() -> Seq<char> {
    "No se pudo extraer la entidad del SQL"@
}

/// The message of a query whose columns cannot be read.
pub open spec fn no_columns_detail() -> Seq<char> {
    "No se pudieron extraer columnas de la consulta SQL"@
}

/// `e` is the query engine's error with `detail`.
pub open spec fn engine_error_is(e: DomainError, detail: Seq<char>) -> bool {
    &&& e.code == ErrorCode::Aeg004
    &&& e.detail@ == detail
    &&& e.stage@ == "aegis"@
    &&& !e.retryable
    &&& e.context is None
}

/// Some column is an aggregate.
pub open spec fn any_aggregate(cols: Seq<ColumnView>) -> bool {
    exists|i: int| 0 <= i < cols.len() && (#[trigger] cols[i]).is_aggregate
}

/// How many matching records a query keeps: 50 000 for an aggregate query,
/// else its limit, else 2 000.
pub open spec fn scan_cap(aggregate: bool, limit: Option<u32>) -> int {
    if aggregate {
        50000
    } else {
        match limit {
            Some(l) => l as int,
            None => 2000,
        }
    }
}

/// The view of an optional `i64`.
pub open spec fn opt_int(o: Option<i64>) -> Option<int> {
    match o {
        Some(x) => Some(x as int),
        None => None,
    }
}

/// Plans a compiled query: its entity and projected columns are required
/// (an `AEG_004` error otherwise); its limit, filters, time window and
/// whether it aggregates are read from the text.
pub fn plan_local_query(sql: &str) -> (r: Result<LocalQueryPlan, DomainError>)
    ensures
        sql_entity(sql@) is None ==> (r matches Err(e) && engine_error_is(e, no_entity_detail())),
        sql_entity(sql@) is Some && projected_columns(sql@).len() == 0 ==> (r matches Err(e) && engine_error_is(
            e,
            no_columns_detail(),
        )),
        sql_entity(sql@) is Some && projected_columns(sql@).len() > 0 ==> (r matches Ok(p) && {
            &&& p.entity@ == sql_entity(sql@)->0
            &&& p.columns@.map_values(|c: ProjectedColumn| c@) == projected_columns(sql@)
            &&& p.limit == sql_limit(sql@)
            &&& p.filters@ == sql_filters(sql@)
            &&& opt_int(p.start) == time_range(sql@).0
            &&& opt_int(p.end) == time_range(sql@).1
            &&& p.aggregate == any_aggregate(projected_columns(sql@))
            &&& p.max_scan_records as int == scan_cap(p.aggregate, p.limit)
        }),
{
    let entity = match extract_entity_from_sql(sql) {
        Some(e) => e,
        None => {
            return Err(
                DomainError::new(ErrorCode::Aeg004, String::from_str("No se pudo extraer la entidad del SQL")).with_stage(
                    "aegis",
                ),
            );
        },
    };
    let columns = extract_projected_columns(sql);
    if columns.len() == 0 {
        return Err(
            DomainError::new(
                ErrorCode::Aeg004,
                String::from_str("No se pudieron extraer columnas de la consulta SQL"),
            ).with_stage("aegis"),
        );
    }
    let limit = extract_limit_from_sql(sql);
    let filters = extract_filters_from_sql(sql);
    let (start, end) = extract_timestamp_range_from_sql(sql);
    let ghost views = columns@.map_values(|c: ProjectedColumn| c@);
    let mut aggregate = false;
    let mut i: usize = 0;
    while i < columns.len()
        invariant
            i <= columns@.len(),
            views == columns@.map_values(|c: ProjectedColumn| c@),
            aggregate == exists|j: int| 0 <= j < i && (#[trigger] views[j]).is_aggregate,
        decreases columns@.len() - i,
    {
        if columns[i].is_aggregate {
            assert(views[i as int].is_aggregate);
            aggregate = true;
        }
        i = i + 1;
    }
    let max_scan_records: usize = if aggregate {
        50000
    } else {
        match limit {
            Some(l) => l as usize,
            None => 2000,
        }
    };
    proof {
        assert(opt_int(start) == time_range(sql@).0);
        assert(opt_int(end) == time_range(sql@).1);
    }
    Ok(LocalQueryPlan { entity, columns, limit, filters, start, end, aggregate, max_scan_records })
}

// -------------------------------------------------------------- selection

/// A filter of a query with its literals as JSON values.
#[derive(Debug)]
pub enum JsonFilter {
    /// `column = value`.
    Equals(JsonValue),
    /// `column IN (values)`.
    AnyOf(Vec<JsonValue>),
}

/// The same scalar JSON value: both null, the same boolean, the same number
/// text, or the same string; lists and objects are never a filter's value.
pub open spec fn same_scalar(a: JsonValue, b: JsonValue) -> bool {
    match (a, b) {
        (JsonValue::Null, JsonValue::Null) => true,
        (JsonValue::Bool(x), JsonValue::Bool(y)) => x == y,
        (JsonValue::Number(x), JsonValue::Number(y)) => x@ == y@,
        (JsonValue::Str(x), JsonValue::Str(y)) => x@ == y@,
        _ => false,
    }
}

/// Whether the record value `v` of a field of schema type `t`, read as that
/// type, is the filter literal `lit`: an epoch written as an integer string
/// is that integer, a boolean written as a string is whether it says
/// `true` in any ASCII letter case; any other value is itself.
pub open spec fn coerced_is(v: JsonValue, t: Option<AttrType>, lit: JsonValue) -> bool {
    match v {
        JsonValue::Str(s) => match t {
            Some(AttrType::Epoch) => match parse_int(s@) {
                Some(n) => lit matches JsonValue::Number(x) && x@ == decimal(n),
                None => same_scalar(v, lit),
            },
            Some(AttrType::Boolean) => lit matches JsonValue::Bool(b) && b == (lower_seq(s@) == "true"@),
            _ => same_scalar(v, lit),
        },
        _ => same_scalar(v, lit),
    }
}

/// Some literal of `lits` is what `v` reads as.
pub open spec fn coerced_in(v: JsonValue, t: Option<AttrType>, lits: Seq<JsonValue>) -> bool {
    exists|i: int| 0 <= i < lits.len() && coerced_is(v, t, #[trigger] lits[i])
}

/// Some literal of `lits` is null.
pub open spec fn has_null(lits: Seq<JsonValue>) -> bool {
    exists|i: int| 0 <= i < lits.len() && #[trigger] lits[i] is Null
}

/// Whether a record passes the filter `f` on column `col`: a column that
/// cleans to `1` or `true` is no filter; a present field passes when its
/// value, read as its type, is the literal (or one of the list); an absent
/// field passes only a null literal.
pub open spec fn filter_passes(
    rec: Seq<(String, JsonValue)>,
    types: Map<Seq<char>, AttrType>,
    col: Seq<char>,
    f: JsonFilter,
) -> bool {
    let c = clean_field(col);
    if c == "1"@ || c == "true"@ {
        true
    } else {
        match field_of(rec, c) {
            Some(v) => match f {
                JsonFilter::Equals(x) => coerced_is(v, types.get(c), x),
                JsonFilter::AnyOf(xs) => coerced_in(v, types.get(c), xs@),
            },
            None => match f {
                JsonFilter::Equals(x) => x is Null,
                JsonFilter::AnyOf(xs) => has_null(xs@),
            },
        }
    }
}

/// The integer that a JSON value holds: a number or a string that reads as
/// an `i64`.
pub open spec fn json_int(v: JsonValue) -> Option<int> {
    match v {
        JsonValue::Number(t) => parse_int(t@),
        JsonValue::Str(s) => parse_int(s@),
        _ => None,
    }
}

/// The time of a record: its `timestamp` field when present, else its
/// `created_at` field, read as an integer.
pub open spec fn record_time_of(rec: Seq<(String, JsonValue)>) -> Option<int> {
    match field_of(rec, "timestamp"@) {
        Some(v) => json_int(v),
        None => match field_of(rec, "created_at"@) {
            Some(v) => json_int(v),
            None => None,
        },
    }
}

/// Whether a record passes every filter and falls in the time window.
pub open spec fn record_kept(
    rec: Seq<(String, JsonValue)>,
    types: Map<Seq<char>, AttrType>,
    filters: Seq<(String, JsonFilter)>,
    start: Option<int>,
    end: Option<int>,
) -> bool {
    &&& forall|i: int| 0 <= i < filters.len() ==> filter_passes(rec, types, (#[trigger] filters[i]).0@, filters[i].1)
    &&& in_window(record_time_of(rec), start, end)
}

/// Positions of the records kept, in order.
pub open spec fn kept_positions(
    records: Seq<Vec<(String, JsonValue)>>,
    types: Map<Seq<char>, AttrType>,
    filters: Seq<(String, JsonFilter)>,
    start: Option<int>,
    end: Option<int>,
) -> Seq<int>
    decreases records.len(),
{
    if records.len() == 0 {
        Seq::empty()
    } else {
        let prev = kept_positions(records.drop_last(), types, filters, start, end);
        if record_kept(records.last()@, types, filters, start, end) {
            prev.push(records.len() - 1)
        } else {
            prev
        }
    }
}

/// The first `cap` elements of `s`, or all of them.
pub open spec fn capped(s: Seq<int>, cap: int) -> Seq<int> {
    if s.len() > cap {
        s.take(cap)
    } else {
        s
    }
}

fn json_int_of(v: &JsonValue) -> (r: Option<i64>)
    ensures
        opt_int(r) == json_int(*v),
{
    match v {
        JsonValue::Number(t) => parse_i64(&chars_of(t.as_str())),
        JsonValue::Str(s) => parse_i64(&chars_of(s.as_str())),
        _ => None,
    }
}

fn same_scalar_exec(a: &JsonValue, b: &JsonValue) -> (r: bool)
    ensures
        r == same_scalar(*a, *b),
{
    match (a, b) {
        (JsonValue::Null, JsonValue::Null) => true,
        (JsonValue::Bool(x), JsonValue::Bool(y)) => *x == *y,
        (JsonValue::Number(x), JsonValue::Number(y)) => same_text(x.as_str(), y.as_str()),
        (JsonValue::Str(x), JsonValue::Str(y)) => same_text(x.as_str(), y.as_str()),
        _ => false,
    }
}

fn coerced_is_exec(v: &JsonValue, t: &Option<AttrType>, lit: &JsonValue) -> (r: bool)
    ensures
        r == coerced_is(*v, *t, *lit),
{
    match v {
        JsonValue::Str(s) => match t {
            Some(AttrType::Epoch) => match parse_i64(&chars_of(s.as_str())) {
                Some(n) => match lit {
                    JsonValue::Number(x) => {
                        let d = crate::json::decimal_text(n);
                        crate::text::eq_chars(&chars_of(x.as_str()), &d)
                    },
                    _ => false,
                },
                None => same_scalar_exec(v, lit),
            },
            Some(AttrType::Boolean) => match lit {
                JsonValue::Bool(b) => {
                    let l = lower_vec(&chars_of(s.as_str()));
                    *b == crate::text::eq_chars(&l, &chars_of("true"))
                },
                _ => false,
            },
            _ => same_scalar_exec(v, lit),
        },
        _ => same_scalar_exec(v, lit),
    }
}

fn any_coerced(v: &JsonValue, t: &Option<AttrType>, xs: &Vec<JsonValue>) -> (r: bool)
    ensures
        r == coerced_in(*v, *t, xs@),
{
    let mut i: usize = 0;
    while i < xs.len()
        invariant
            i <= xs@.len(),
            forall|j: int| 0 <= j < i ==> !coerced_is(*v, *t, #[trigger] xs@[j]),
        decreases xs@.len() - i,
    {
        if coerced_is_exec(v, t, &xs[i]) {
            assert(coerced_is(*v, *t, xs@[i as int]));
            return true;
        }
        i = i + 1;
    }
    false
}

fn any_null(xs: &Vec<JsonValue>) -> (r: bool)
    ensures
        r == has_null(xs@),
{
    let mut i: usize = 0;
    while i < xs.len()
        invariant
            i <= xs@.len(),
            forall|j: int| 0 <= j < i ==> !(#[trigger] xs@[j] is Null),
        decreases xs@.len() - i,
    {
        match &xs[i] {
            JsonValue::Null => {
                assert(xs@[i as int] is Null);
                return true;
            },
            _ => {},
        }
        i = i + 1;
    }
    false
}

fn filter_passes_exec(rec: &Vec<(String, JsonValue)>, types: &AttrTypeMap, col: &str, f: &JsonFilter) -> (r: bool)
    ensures
        r == filter_passes(rec@, types@, col@, *f),
{
    let c = clean_expr_field(col);
    if same_text(c.as_str(), "1") || same_text(c.as_str(), "true") {
        return true;
    }
    let t = types.get(c.as_str());
    proof {
        assert(t == types@.get(c@));
    }
    match find_field(rec, c.as_str()) {
        Some(k) => {
            let v = &rec[k].1;
            match f {
                JsonFilter::Equals(x) => coerced_is_exec(v, &t, x),
                JsonFilter::AnyOf(xs) => any_coerced(v, &t, xs),
            }
        },
        None => match f {
            JsonFilter::Equals(x) => match x {
                JsonValue::Null => true,
                _ => false,
            },
            JsonFilter::AnyOf(xs) => any_null(xs),
        },
    }
}

fn record_time_exec(rec: &Vec<(String, JsonValue)>) -> (r: Option<i64>)
    ensures
        opt_int(r) == record_time_of(rec@),
{
    match find_field(rec, "timestamp") {
        Some(k) => json_int_of(&rec[k].1),
        None => match find_field(rec, "created_at") {
            Some(k) => json_int_of(&rec[k].1),
            None => None,
        },
    }
}

fn record_kept_exec(
    rec: &Vec<(String, JsonValue)>,
    types: &AttrTypeMap,
    filters: &Vec<(String, JsonFilter)>,
    start: Option<i64>,
    end: Option<i64>,
) -> (r: bool)
    ensures
        r == record_kept(rec@, types@, filters@, opt_int(start), opt_int(end)),
{
    let mut i: usize = 0;
    while i < filters.len()
        invariant
            i <= filters@.len(),
            forall|j: int| 0 <= j < i ==> filter_passes(rec@, types@, (#[trigger] filters@[j]).0@, filters@[j].1),
        decreases filters@.len() - i,
    {
        if !filter_passes_exec(rec, types, filters[i].0.as_str(), &filters[i].1) {
            return false;
        }
        i = i + 1;
    }
    let t = record_time_exec(rec);
    crate::lake::within_time_range(t, start, end)
}

/// Selects the records a query keeps: those that pass every filter and fall
/// in the time window, in order, the first `max_scan_records` of them. The
/// records' values of number-typed fields are expected already read as
/// numbers where they were written as numeric strings.
pub fn select_records(
    records: &Vec<Vec<(String, JsonValue)>>,
    types: &AttrTypeMap,
    filters: &Vec<(String, JsonFilter)>,
    start: Option<i64>,
    end: Option<i64>,
    max_scan_records: usize,
) -> (r: Vec<usize>)
    ensures
        r@.map_values(|i: usize| i as int) == capped(
            kept_positions(records@, types@, filters@, opt_int(start), opt_int(end)),
            max_scan_records as int,
        ),
{
    let ghost st = opt_int(start);
    let ghost en = opt_int(end);
    let mut out: Vec<usize> = Vec::new();
    let mut i: usize = 0;
    while i < records.len()
        invariant
            i <= records@.len(),
            st == opt_int(start),
            en == opt_int(end),
            out@.map_values(|i: usize| i as int) == capped(
                kept_positions(records@.take(i as int), types@, filters@, st, en),
                max_scan_records as int,
            ),
        decreases records@.len() - i,
    {
        let ghost prev = kept_positions(records@.take(i as int), types@, filters@, st, en);
        proof {
            assert(records@.take(i + 1).drop_last() =~= records@.take(i as int));
            assert(records@.take(i + 1).last() == records@[i as int]);
        }
        let keep = record_kept_exec(&records[i], types, filters, start, end);
        if keep {
            if out.len() < max_scan_records {
                let ghost before = out@.map_values(|i: usize| i as int);
                out.push(i);
                proof {
                    assert(out@.map_values(|i: usize| i as int) =~= before.push(i as int));
                    assert(prev.push(i as int).len() <= max_scan_records);
                }
            } else {
                proof {
                    assert(prev.push(i as int).take(max_scan_records as int) =~= prev.take(max_scan_records as int));
                }
            }
        }
        i = i + 1;
    }
    proof {
        assert(records@.take(records@.len() as int) =~= records@);
    }
    out
}

// ------------------------------------------------------------- projection

/// Where a cell of a projected row comes from.
#[derive(Debug, Clone, Copy, PartialEq, Eq)]
pub enum CellSource {
    /// A `date_trunc` bucket: the truncated time.
    Bucket(i64),
    /// An epoch field written as an integer string: that integer.
    Epoch(i64),
    /// A boolean field written as a string: whether it says `true`.
    Flag(bool),
    /// The value of the record's field at this position, as recorded.
    Recorded(usize),
    /// No value: null.
    Null,
}

/// A projected row: each column's alias and cell, in column order (a later
/// column of the same alias overrides an earlier one), the record it comes
/// from, and the time by which rows are ordered.
#[derive(Debug)]
pub struct ProjectedRow {
    pub cells: Vec<(String, CellSource)>,
    pub record: usize,
    pub time: i64,
}

/// The time a bucket is computed from: the integer the field holds, 0 when
/// it holds none or is absent.
pub open spec fn bucket_ts(rec: Seq<(String, JsonValue)>, field: Seq<char>) -> int {
    match field_of(rec, field) {
        Some(v) => match json_int(v) {
            Some(n) => n,
            None => 0,
        },
        None => 0,
    }
}

/// A bucket of the record can be truncated: its time, when positive, is one
/// that `chrono` holds (the engine cannot truncate any other).
pub open spec fn bucket_ok(rec: Seq<(String, JsonValue)>, expr: Seq<char>) -> bool {
    let l = crate::text::lowercase(expr);
    crate::sql_parse::final_expr::has(l, "date_trunc"@) ==> (bucket_ts(rec, bucket_field(l)) > 0 ==> truncatable(
        bucket_ts(rec, bucket_field(l)),
        bucket_interval(l),
    ))
}

/// `c` is the cell of the column `expr` for the record `rec`: a bucket
/// column gives the truncated time when it is positive, else null; a field
/// column gives the field read as its schema type (an epoch or boolean
/// written as a string becomes an integer or a boolean), or null when the
/// record has no such field.
pub open spec fn cell_is(
    c: CellSource,
    expr: Seq<char>,
    rec: Seq<(String, JsonValue)>,
    types: Map<Seq<char>, AttrType>,
) -> bool {
    let l = crate::text::lowercase(expr);
    if crate::sql_parse::final_expr::has(l, "date_trunc"@) {
        let ts = bucket_ts(rec, bucket_field(l));
        if ts > 0 {
            c == CellSource::Bucket(truncated(ts, bucket_interval(l)) as i64)
        } else {
            c == CellSource::Null
        }
    } else {
        let name = clean_field(expr);
        match field_of(rec, name) {
            None => c == CellSource::Null,
            Some(v) => match (v, types.get(name)) {
                (JsonValue::Str(s), Some(AttrType::Epoch)) if parse_int(s@) is Some => c == CellSource::Epoch(
                    parse_int(s@)->0 as i64,
                ),
                (JsonValue::Str(s), Some(AttrType::Boolean)) => c == CellSource::Flag(lower_seq(s@) == "true"@),
                _ => c matches CellSource::Recorded(k) && k < rec.len() && rec[k as int].0@ == name && field_of(
                    rec,
                    name,
                ) == Some(rec[k as int].1),
            },
        }
    }
}

/// The integer a cell holds, as the ordering reads it.
pub open spec fn cell_int(c: CellSource, rec: Seq<(String, JsonValue)>) -> Option<int> {
    match c {
        CellSource::Bucket(n) => Some(n as int),
        CellSource::Epoch(n) => Some(n as int),
        CellSource::Recorded(k) => json_int(rec[k as int].1),
        _ => None,
    }
}

/// The cell a row keeps under `alias`: the last column of that alias.
pub open spec fn cell_named(cells: Seq<(String, CellSource)>, alias: Seq<char>) -> Option<CellSource>
    decreases cells.len(),
{
    if cells.len() == 0 {
        None
    } else if cells.last().0@ == alias {
        Some(cells.last().1)
    } else {
        cell_named(cells.drop_last(), alias)
    }
}

/// The ordering time of a row: its `timestamp`, else `created_at`, else
/// `bucket`, else `current_bucket` cell (the first one present), read as an
/// integer; 0 when that cell holds none or none is present.
pub open spec fn row_time(cells: Seq<(String, CellSource)>, rec: Seq<(String, JsonValue)>) -> int {
    let c = if cell_named(cells, "timestamp"@) is Some {
        cell_named(cells, "timestamp"@)
    } else if cell_named(cells, "created_at"@) is Some {
        cell_named(cells, "created_at"@)
    } else if cell_named(cells, "bucket"@) is Some {
        cell_named(cells, "bucket"@)
    } else {
        cell_named(cells, "current_bucket"@)
    };
    match c {
        Some(x) => match cell_int(x, rec) {
            Some(n) => n,
            None => 0,
        },
        None => 0,
    }
}

/// `row` is the projection of the record at `pos` by `columns`.
pub open spec fn row_is(
    row: ProjectedRow,
    columns: Seq<ColumnView>,
    records: Seq<Vec<(String, JsonValue)>>,
    pos: int,
    types: Map<Seq<char>, AttrType>,
) -> bool {
    &&& row.record == pos
    &&& row.cells@.len() == columns.len()
    &&& forall|j: int|
        0 <= j < columns.len() ==> (#[trigger] row.cells@[j]).0@ == columns[j].alias && cell_is(
            row.cells@[j].1,
            columns[j].expr,
            records[pos]@,
            types,
        )
    &&& row.time == row_time(row.cells@, records[pos]@)
}

fn bucket_ts_exec(rec: &Vec<(String, JsonValue)>, field: &str) -> (r: i64)
    ensures
        r == bucket_ts(rec@, field@),
{
    match find_field(rec, field) {
        Some(k) => match json_int_of(&rec[k].1) {
            Some(n) => n,
            None => 0,
        },
        None => 0,
    }
}

fn cell_of(expr: &str, rec: &Vec<(String, JsonValue)>, types: &AttrTypeMap) -> (c: CellSource)
    requires
        bucket_ok(rec@, expr@),
    ensures
        cell_is(c, expr@, rec@, types@),
{
    match column_read(expr) {
        ColumnRead::Bucket { field, interval } => {
            let ts = bucket_ts_exec(rec, field);
            if ts > 0 {
                CellSource::Bucket(truncate_timestamp(ts, interval))
            } else {
                CellSource::Null
            }
        },
        ColumnRead::Field(name) => match find_field(rec, name.as_str()) {
            None => CellSource::Null,
            Some(k) => {
                let t = types.get(name.as_str());
                match (&rec[k].1, t) {
                    (JsonValue::Str(s), Some(AttrType::Epoch)) => match parse_i64(&chars_of(s.as_str())) {
                        Some(n) => CellSource::Epoch(n),
                        None => CellSource::Recorded(k),
                    },
                    (JsonValue::Str(s), Some(AttrType::Boolean)) => {
                        let l = lower_vec(&chars_of(s.as_str()));
                        CellSource::Flag(crate::text::eq_chars(&l, &chars_of("true")))
                    },
                    _ => CellSource::Recorded(k),
                }
            },
        },
    }
}

/// Whether every bucket of the record, for the column `expr`, can be
/// truncated.
pub fn bucket_in_range(rec: &Vec<(String, JsonValue)>, expr: &str) -> (r: bool)
    ensures
        r == bucket_ok(rec@, expr@),
{
    match column_read(expr) {
        ColumnRead::Bucket { field, interval } => {
            let ts = bucket_ts_exec(rec, field);
            ts <= 0 || crate::lake::is_truncatable(ts, interval)
        },
        ColumnRead::Field(_) => true,
    }
}

/// The cell of the column `expr` for the record `rec`.
pub fn column_cell(expr: &str, rec: &Vec<(String, JsonValue)>, types: &AttrTypeMap) -> (c: CellSource)
    requires
        bucket_ok(rec@, expr@),
    ensures
        cell_is(c, expr@, rec@, types@),
{
    cell_of(expr, rec, types)
}

fn cell_int_exec(c: CellSource, rec: &Vec<(String, JsonValue)>) -> (r: Option<i64>)
    requires
        c matches CellSource::Recorded(k) ==> k < rec@.len(),
    ensures
        opt_int(r) == cell_int(c, rec@),
{
    match c {
        CellSource::Bucket(n) => Some(n),
        CellSource::Epoch(n) => Some(n),
        CellSource::Recorded(k) => json_int_of(&rec[k].1),
        _ => None,
    }
}

fn cell_named_exec(cells: &Vec<(String, CellSource)>, alias: &str) -> (r: Option<CellSource>)
    ensures
        r == cell_named(cells@, alias@),
{
    let mut i: usize = cells.len();
    proof {
        assert(cells@.take(i as int) =~= cells@);
    }
    while i > 0
        invariant
            i <= cells@.len(),
            cell_named(cells@, alias@) == cell_named(cells@.take(i as int), alias@),
        decreases i,
    {
        proof {
            assert(cells@.take(i as int).drop_last() =~= cells@.take(i - 1));
            assert(cells@.take(i as int).last() == cells@[i - 1]);
        }
        if same_text(cells[i - 1].0.as_str(), alias) {
            return Some(cells[i - 1].1);
        }
        i = i - 1;
    }
    None
}

fn row_time_exec(cells: &Vec<(String, CellSource)>, rec: &Vec<(String, JsonValue)>) -> (r: i64)
    requires
        forall|j: int| 0 <= j < cells@.len() ==> ((#[trigger] cells@[j]).1 matches CellSource::Recorded(k) ==> k < rec@.len()),
    ensures
        r == row_time(cells@, rec@),
{
    let c = match cell_named_exec(cells, "timestamp") {
        Some(x) => Some(x),
        None => match cell_named_exec(cells, "created_at") {
            Some(x) => Some(x),
            None => match cell_named_exec(cells, "bucket") {
                Some(x) => Some(x),
                None => cell_named_exec(cells, "current_bucket"),
            },
        },
    };
    proof {
        lemma_cell_named_from(cells@, "timestamp"@);
        lemma_cell_named_from(cells@, "created_at"@);
        lemma_cell_named_from(cells@, "bucket"@);
        lemma_cell_named_from(cells@, "current_bucket"@);
    }
    match c {
        Some(x) => match cell_int_exec(x, rec) {
            Some(n) => n,
            None => 0,
        },
        None => 0,
    }
}

proof fn lemma_cell_named_from(cells: Seq<(String, CellSource)>, alias: Seq<char>)
    ensures
        cell_named(cells, alias) matches Some(c) ==> exists|j: int| 0 <= j < cells.len() && (#[trigger] cells[j]).1 == c,
    decreases cells.len(),
{
    if cells.len() > 0 {
        lemma_cell_named_from(cells.drop_last(), alias);
        if cells.last().0@ != alias {
            if let Some(c) = cell_named(cells.drop_last(), alias) {
                let j = choose|j: int| 0 <= j < cells.drop_last().len() && (#[trigger] cells.drop_last()[j]).1 == c;
                assert(cells[j] == cells.drop_last()[j]);
            }
        } else {
            assert(cells[cells.len() - 1] == cells.last());
        }
    }
}

/// Projects the record at `pos` by `columns`.
fn project_row(
    columns: &Vec<ProjectedColumn>,
    records: &Vec<Vec<(String, JsonValue)>>,
    pos: usize,
    types: &AttrTypeMap,
) -> (r: ProjectedRow)
    requires
        pos < records@.len(),
        forall|j: int| 0 <= j < columns@.len() ==> bucket_ok(records@[pos as int]@, (#[trigger] columns@[j]).expr@),
    ensures
        row_is(r, columns@.map_values(|c: ProjectedColumn| c@), records@, pos as int, types@),
{
    let rec = &records[pos];
    let ghost cols = columns@.map_values(|c: ProjectedColumn| c@);
    let mut cells: Vec<(String, CellSource)> = Vec::new();
    let mut j: usize = 0;
    while j < columns.len()
        invariant
            j <= columns@.len(),
            cols == columns@.map_values(|c: ProjectedColumn| c@),
            *rec == records@[pos as int],
            forall|i: int| 0 <= i < columns@.len() ==> bucket_ok(rec@, (#[trigger] columns@[i]).expr@),
            cells@.len() == j,
            forall|i: int|
                0 <= i < j ==> (#[trigger] cells@[i]).0@ == cols[i].alias && cell_is(cells@[i].1, cols[i].expr, rec@, types@),
            forall|i: int| 0 <= i < j ==> ((#[trigger] cells@[i]).1 matches CellSource::Recorded(k) ==> k < rec@.len()),
        decreases columns@.len() - j,
    {
        let c = cell_of(columns[j].expr.as_str(), rec, types);
        cells.push((String::from_str(columns[j].alias.as_str()), c));
        j = j + 1;
    }
    let time = row_time_exec(&cells, rec);
    ProjectedRow { cells, record: pos, time }
}

// --------------------------------------------------------------- ordering

/// `order` lists the positions `0..keys.len()` each once, by key from the
/// highest, positions of equal keys in their original order, as a stable
/// sort leaves them.
pub open spec fn ordered_by_key_desc(order: Seq<int>, keys: Seq<int>) -> bool {
    &&& order.len() == keys.len()
    &&& forall|i: int| 0 <= i < order.len() ==> 0 <= #[trigger] order[i] < keys.len()
    &&& forall|i: int, j: int| 0 <= i < j < order.len() ==> #[trigger] order[i] != #[trigger] order[j]
    &&& forall|i: int, j: int|
        0 <= i < j < order.len() ==> keys[#[trigger] order[i]] > keys[#[trigger] order[j]] || (keys[order[i]]
            == keys[order[j]] && order[i] < order[j])
}

/// The first `limit` elements of `s`, or all of them when there is no limit
/// or fewer.
pub open spec fn limited<T>(s: Seq<T>, limit: Option<u32>) -> Seq<T> {
    match limit {
        Some(l) => if s.len() > l {
            s.take(l as int)
        } else {
            s
        },
        None => s,
    }
}

/// Keys as integers.
pub open spec fn key_ints(keys: Seq<i64>) -> Seq<int> {
    keys.map_values(|k: i64| k as int)
}

/// Positions as integers.
pub open spec fn index_ints(v: Seq<usize>) -> Seq<int> {
    v.map_values(|i: usize| i as int)
}

/// Orders positions by their keys, highest first and ties in position
/// order, and keeps the first `limit` of them.
pub fn order_and_limit(keys: &Vec<i64>, limit: Option<u32>) -> (r: Vec<usize>)
    ensures
        exists|order: Seq<int>|
            #[trigger] ordered_by_key_desc(order, key_ints(keys@)) && index_ints(r@) == limited(order, limit),
{
    let ghost ks = key_ints(keys@);
    let mut order: Vec<usize> = Vec::new();
    let mut i: usize = 0;
    while i < keys.len()
        invariant
            i <= keys@.len(),
            ks == key_ints(keys@),
            order@.len() == i,
            forall|a: int| 0 <= a < order@.len() ==> #[trigger] order@[a] < i,
            forall|a: int, b: int| 0 <= a < b < order@.len() ==> #[trigger] order@[a] != #[trigger] order@[b],
            forall|a: int, b: int|
                0 <= a < b < order@.len() ==> keys@[#[trigger] order@[a] as int] > keys@[#[trigger] order@[b] as int]
                    || (keys@[order@[a] as int] == keys@[order@[b] as int] && order@[a] < order@[b]),
        decreases keys@.len() - i,
    {
        let k = keys[i];
        let mut p: usize = 0;
        while p < order.len() && keys[order[p]] >= k
            invariant
                p <= order@.len(),
                i < keys@.len(),
                k == keys@[i as int],
                forall|a: int| 0 <= a < order@.len() ==> #[trigger] order@[a] < i,
                forall|a: int| 0 <= a < p ==> keys@[#[trigger] order@[a] as int] >= k,
            decreases order@.len() - p,
        {
            p = p + 1;
        }
        let ghost before = order@;
        proof {
            assert forall|a: int| p <= a < before.len() implies keys@[#[trigger] before[a] as int] < k by {
                if a > p {
                    assert(keys@[before[p as int] as int] < k);
                    assert(keys@[before[p as int] as int] > keys@[before[a] as int] || keys@[before[p as int] as int]
                        == keys@[before[a] as int]);
                }
            }
        }
        order.insert(p, i);
        proof {
            assert forall|a: int, b: int| 0 <= a < b < order@.len() implies keys@[#[trigger] order@[a] as int]
                > keys@[#[trigger] order@[b] as int] || (keys@[order@[a] as int] == keys@[order@[b] as int]
                && order@[a] < order@[b]) by {
                if a < p && b == p {
                    assert(order@[a] == before[a]);
                } else if a == p && b > p {
                    assert(order@[b] == before[b - 1]);
                } else if a < p && b > p {
                    assert(order@[a] == before[a] && order@[b] == before[b - 1]);
                    assert(keys@[before[a] as int] >= k);
                    assert(keys@[before[b - 1] as int] < k);
                } else if b < p {
                    assert(order@[a] == before[a] && order@[b] == before[b]);
                } else {
                    assert(order@[a] == before[a - 1] && order@[b] == before[b - 1]);
                }
            }
            assert forall|a: int, b: int| 0 <= a < b < order@.len() implies #[trigger] order@[a] != #[trigger] order@[b] by {
                if a < p && b == p {
                    assert(order@[a] == before[a]);
                } else if a == p && b > p {
                    assert(order@[b] == before[b - 1]);
                } else if a < p && b > p {
                    assert(order@[a] == before[a] && order@[b] == before[b - 1]);
                } else if b < p {
                    assert(order@[a] == before[a] && order@[b] == before[b]);
                } else {
                    assert(order@[a] == before[a - 1] && order@[b] == before[b - 1]);
                }
            }
            assert forall|a: int| 0 <= a < order@.len() implies #[trigger] order@[a] < i + 1 by {
                if a < p {
                    assert(order@[a] == before[a]);
                } else if a > p {
                    assert(order@[a] == before[a - 1]);
                }
            }
        }
        i = i + 1;
    }
    let ghost full = index_ints(order@);
    proof {
        assert(ordered_by_key_desc(full, ks));
    }
    match limit {
        Some(l) => {
            if order.len() > l as usize {
                order.truncate(l as usize);
                assert(index_ints(order@) =~= full.take(l as int));
            }
        },
        None => {},
    }
    order
}

// ------------------------------------------------------------------- laws

/// An equality filter never matches a record that lacks its column, unless
/// its literal is null: `column = value` needs the field.
pub proof fn lemma_equality_needs_the_field(
    rec: Seq<(String, JsonValue)>,
    types: Map<Seq<char>, AttrType>,
    col: Seq<char>,
    x: JsonValue,
)
    requires
        clean_field(col) != "1"@,
        clean_field(col) != "true"@,
        forall|i: int| 0 <= i < rec.len() ==> (#[trigger] rec[i]).0@ != clean_field(col),
        filter_passes(rec, types, col, JsonFilter::Equals(x)),
    ensures
        x is Null,
{
    lemma_field_absent(rec, clean_field(col));
}

/// A record whose untyped field holds exactly the filter's string passes
/// the equality filter; one whose field holds another string fails it.
pub proof fn lemma_equality_on_strings(
    rec: Seq<(String, JsonValue)>,
    types: Map<Seq<char>, AttrType>,
    col: Seq<char>,
    k: int,
    s: String,
    t: String,
)
    requires
        clean_field(col) != "1"@,
        clean_field(col) != "true"@,
        !types.dom().contains(clean_field(col)),
        0 <= k < rec.len(),
        rec[k].0@ == clean_field(col),
        rec[k].1 == JsonValue::Str(s),
        forall|i: int| 0 <= i < k ==> (#[trigger] rec[i]).0@ != clean_field(col),
    ensures
        filter_passes(rec, types, col, JsonFilter::Equals(JsonValue::Str(t))) <==> s@ == t@,
{
    lemma_field_first(rec, clean_field(col), k);
}

proof fn lemma_field_absent(rec: Seq<(String, JsonValue)>, key: Seq<char>)
    requires
        forall|i: int| 0 <= i < rec.len() ==> (#[trigger] rec[i]).0@ != key,
    ensures
        field_of(rec, key) is None,
    decreases rec.len(),
{
    if rec.len() > 0 {
        assert(rec[0].0@ != key);
        assert forall|i: int| 0 <= i < rec.skip(1).len() implies (#[trigger] rec.skip(1)[i]).0@ != key by {
            assert(rec.skip(1)[i] == rec[i + 1]);
        }
        lemma_field_absent(rec.skip(1), key);
    }
}

proof fn lemma_field_first(rec: Seq<(String, JsonValue)>, key: Seq<char>, k: int)
    requires
        0 <= k < rec.len(),
        rec[k].0@ == key,
        forall|i: int| 0 <= i < k ==> (#[trigger] rec[i]).0@ != key,
    ensures
        field_of(rec, key) == Some(rec[k].1),
    decreases k,
{
    if k > 0 {
        assert(rec[0].0@ != key);
        assert forall|i: int| 0 <= i < k - 1 implies (#[trigger] rec.skip(1)[i]).0@ != key by {
            assert(rec.skip(1)[i] == rec[i + 1]);
        }
        assert(rec.skip(1)[k - 1] == rec[k]);
        lemma_field_first(rec.skip(1), key, k - 1);
    }
}

/// A row keeps, under an alias, the cell of the last column of that alias,
/// as a map filled column by column does.
pub proof fn lemma_last_column_of_alias_wins(cells: Seq<(String, CellSource)>, alias: Seq<char>, j: int)
    requires
        0 <= j < cells.len(),
        cells[j].0@ == alias,
        forall|k: int| j < k < cells.len() ==> (#[trigger] cells[k]).0@ != alias,
    ensures
        cell_named(cells, alias) == Some(cells[j].1),
    decreases cells.len(),
{
    if j < cells.len() - 1 {
        assert(cells.last() == cells[cells.len() - 1]);
        assert forall|k: int| j < k < cells.drop_last().len() implies (#[trigger] cells.drop_last()[k]).0@ != alias by {
            assert(cells.drop_last()[k] == cells[k]);
        }
        lemma_last_column_of_alias_wins(cells.drop_last(), alias, j);
    }
}

/// A row with a `timestamp` cell is ordered by it, whatever its other time
/// cells hold: the cell's integer, or 0 when it holds none.
pub proof fn lemma_timestamp_orders_rows(cells: Seq<(String, CellSource)>, rec: Seq<(String, JsonValue)>, c: CellSource)
    requires
        cell_named(cells, "timestamp"@) == Some(c),
    ensures
        row_time(cells, rec) == (match cell_int(c, rec) {
            Some(n) => n,
            None => 0,
        }),
{
}

/// A row without a `timestamp` cell but with a `created_at` cell is
/// ordered by `created_at`, whatever its bucket cells hold.
pub proof fn lemma_created_at_orders_rows_without_timestamp(
    cells: Seq<(String, CellSource)>,
    rec: Seq<(String, JsonValue)>,
    c: CellSource,
)
    requires
        cell_named(cells, "timestamp"@) is None,
        cell_named(cells, "created_at"@) == Some(c),
    ensures
        row_time(cells, rec) == (match cell_int(c, rec) {
            Some(n) => n,
            None => 0,
        }),
{
}

/// The time of a timestamp cell that holds an integer is that integer.
pub proof fn lemma_timestamp_time_is_its_value(
    cells: Seq<(String, CellSource)>,
    rec: Seq<(String, JsonValue)>,
    j: int,
    n: i64,
)
    requires
        0 <= j < cells.len(),
        cells[j].0@ == "timestamp"@,
        forall|k: int| j < k < cells.len() ==> (#[trigger] cells[k]).0@ != "timestamp"@,
        cells[j].1 == CellSource::Bucket(n) || cells[j].1 == CellSource::Epoch(n),
    ensures
        row_time(cells, rec) == n,
{
    lemma_last_column_of_alias_wins(cells, "timestamp"@, j);
}

// ------------------------------------------------------------------ query

/// The rows of a query that does not aggregate: one projected row per
/// record kept, in the order they were kept, and the order in which they are
/// returned (already cut to the query's limit).
#[derive(Debug)]
pub struct LocalRows {
    pub rows: Vec<ProjectedRow>,
    pub order: Vec<usize>,
}

/// What the in-memory query leaves: the rows of a plain query, or, for an
/// aggregate query, the records kept, which the caller aggregates (the
/// aggregates are floating point) before ordering the groups with
/// `order_and_limit`.
#[derive(Debug)]
pub enum LocalResult {
    Rows(LocalRows),
    Aggregate(Vec<usize>),
}

/// The ordering times of rows.
pub open spec fn row_times(rows: Seq<ProjectedRow>) -> Seq<int> {
    rows.map_values(|r: ProjectedRow| r.time as int)
}

/// The records a plan keeps.
pub open spec fn plan_kept(
    plan: LocalQueryPlan,
    types: Map<Seq<char>, AttrType>,
    filters: Seq<(String, JsonFilter)>,
    records: Seq<Vec<(String, JsonValue)>>,
) -> Seq<int> {
    capped(kept_positions(records, types, filters, opt_int(plan.start), opt_int(plan.end)), plan.max_scan_records as int)
}

/// `out` answers a plain query: one row per record kept, each the
/// projection of its record by the plan's columns, and the rows' order, from
/// the latest time, cut to the plan's limit.
pub open spec fn rows_answer(
    out: LocalRows,
    plan: LocalQueryPlan,
    types: Map<Seq<char>, AttrType>,
    filters: Seq<(String, JsonFilter)>,
    records: Seq<Vec<(String, JsonValue)>>,
) -> bool {
    let kept = plan_kept(plan, types, filters, records);
    &&& out.rows@.len() == kept.len()
    &&& forall|j: int|
        0 <= j < kept.len() ==> row_is(
            #[trigger] out.rows@[j],
            plan.columns@.map_values(|c: ProjectedColumn| c@),
            records,
            kept[j],
            types,
        )
    &&& exists|order: Seq<int>|
        #[trigger] ordered_by_key_desc(order, row_times(out.rows@)) && index_ints(out.order@) == limited(order, plan.limit)
}

/// Runs a planned query over the records of its entity; `filters` are the
/// plan's filters with their literals as JSON values. The records kept are
/// those that pass every filter and fall in the time window, the first
/// `max_scan_records` of them; an aggregate query hands them back; any
/// other projects each of them by the plan's columns, and orders the rows
/// by time from the latest (rows of equal time in record order), cut to the
/// limit.
pub fn run_local_query(
    plan: &LocalQueryPlan,
    types: &AttrTypeMap,
    filters: &Vec<(String, JsonFilter)>,
    records: &Vec<Vec<(String, JsonValue)>>,
) -> (r: LocalResult)
    requires
        !plan.aggregate ==> forall|j: int, c: int|
            0 <= j < plan_kept(*plan, types@, filters@, records@).len() && 0 <= c < plan.columns@.len() ==> #[trigger] bucket_ok(
                records@[plan_kept(*plan, types@, filters@, records@)[j]]@,
                plan.columns@[c].expr@,
            ),
    ensures
        plan.aggregate ==> (r matches LocalResult::Aggregate(sel) && index_ints(sel@) == plan_kept(
            *plan,
            types@,
            filters@,
            records@,
        )),
        !plan.aggregate ==> (r matches LocalResult::Rows(out) && rows_answer(out, *plan, types@, filters@, records@)),
{
    let sel = select_records(records, types, filters, plan.start, plan.end, plan.max_scan_records);
    let ghost kept = plan_kept(*plan, types@, filters@, records@);
    assert(index_ints(sel@) == kept);
    if plan.aggregate {
        return LocalResult::Aggregate(sel);
    }
    proof {
        lemma_kept_bounded(records@, types@, filters@, opt_int(plan.start), opt_int(plan.end));
    }
    let mut rows: Vec<ProjectedRow> = Vec::new();
    let mut times: Vec<i64> = Vec::new();
    let mut j: usize = 0;
    while j < sel.len()
        invariant
            j <= sel@.len(),
            !plan.aggregate,
            index_ints(sel@) == kept,
            kept == plan_kept(*plan, types@, filters@, records@),
            forall|a: int| 0 <= a < kept.len() ==> 0 <= #[trigger] kept[a] < records@.len(),
            forall|a: int, c: int|
                0 <= a < kept.len() && 0 <= c < plan.columns@.len() ==> #[trigger] bucket_ok(
                    records@[kept[a]]@,
                    plan.columns@[c].expr@,
                ),
            rows@.len() == j,
            times@.len() == j,
            forall|a: int|
                0 <= a < j ==> row_is(
                    #[trigger] rows@[a],
                    plan.columns@.map_values(|c: ProjectedColumn| c@),
                    records@,
                    kept[a],
                    types@,
                ),
            forall|a: int| 0 <= a < j ==> #[trigger] times@[a] == rows@[a].time,
        decreases sel@.len() - j,
    {
        let pos = sel[j];
        assert(kept[j as int] == pos as int);
        let row = project_row(&plan.columns, records, pos, types);
        times.push(row.time);
        rows.push(row);
        j = j + 1;
    }
    let order = order_and_limit(&times, plan.limit);
    proof {
        assert(key_ints(times@) =~= row_times(rows@));
        let o = choose|o: Seq<int>| #[trigger] ordered_by_key_desc(o, key_ints(times@)) && index_ints(order@) == limited(o, plan.limit);
        assert(ordered_by_key_desc(o, row_times(rows@)));
        assert(rows@.len() == kept.len());
        assert(exists|o2: Seq<int>| #[trigger] ordered_by_key_desc(o2, row_times(rows@)) && index_ints(order@) == limited(o2, plan.limit));
        assert(forall|a: int| 0 <= a < kept.len() ==> row_is(#[trigger] rows@[a], plan.columns@.map_values(|c: ProjectedColumn| c@), records@, kept[a], types@));
    }
    let out = LocalRows { rows, order };
    assert(rows_answer(out, *plan, types@, filters@, records@));
    LocalResult::Rows(out)
}

proof fn lemma_kept_bounded(
    records: Seq<Vec<(String, JsonValue)>>,
    types: Map<Seq<char>, AttrType>,
    filters: Seq<(String, JsonFilter)>,
    start: Option<int>,
    end: Option<int>,
)
    ensures
        forall|a: int|
            0 <= a < kept_positions(records, types, filters, start, end).len() ==> 0 <= #[trigger] kept_positions(
                records,
                types,
                filters,
                start,
                end,
            )[a] < records.len(),
    decreases records.len(),
{
    if records.len() > 0 {
        let earlier = records.drop_last();
        lemma_kept_bounded(earlier, types, filters, start, end);
        let p = kept_positions(records, types, filters, start, end);
        let q = kept_positions(earlier, types, filters, start, end);
        assert forall|a: int| 0 <= a < p.len() implies 0 <= #[trigger] p[a] < records.len() by {
            if a < q.len() {
                assert(p[a] == q[a]);
            }
        }
    }
}

} // verus!
