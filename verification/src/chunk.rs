//! How a query chunk of the engine becomes the answer to the client: its
//! columns (the password hash only for the system back end), the values of
//! each data row in column order, and whether the rows go out as a CSV file.
use vstd::prelude::*;
use vstd::string::StringExecFns;
use crate::handlers::{field_of, field_ref, find_field, get_field, JsonValue};
use crate::text::same_text;
use crate::viz_meta::{bool_or, str_or};

verus! {

/// A column of a chunk, as the client sees it.
#[derive(Debug)]
pub struct ColumnSchema {
    pub key: String,
    pub label: String,
    pub kind: String,
    pub format: String,
    pub is_dimension: bool,
    pub is_measure: bool,
}

/// `c` is the column that the object `v` describes.
pub open spec fn column_schema_is(c: ColumnSchema, v: JsonValue) -> bool {
    &&& c.key@ == str_or(get_field(v, "key"@), ""@)
    &&& c.label@ == str_or(get_field(v, "label"@), ""@)
    &&& c.kind@ == str_or(get_field(v, "type"@), ""@)
    &&& c.format@ == str_or(get_field(v, "format"@), ""@)
    &&& c.is_dimension == bool_or(get_field(v, "is_dimension"@), false)
    &&& c.is_measure == bool_or(get_field(v, "is_measure"@), false)
}

/// A column is shown: every column but the password hash, which only the
/// system back end sees.
pub open spec fn column_shown(v: JsonValue, system_bff: bool) -> bool {
    str_or(get_field(v, "key"@), ""@) != "password_hash"@ || system_bff
}

/// Positions of the columns shown, in order.
pub open spec fn shown_positions(cols: Seq<JsonValue>, system_bff: bool) -> Seq<int>
    decreases cols.len(),
{
    if cols.len() == 0 {
        Seq::empty()
    } else {
        let prev = shown_positions(cols.drop_last(), system_bff);
        if column_shown(cols.last(), system_bff) {
            prev.push(cols.len() - 1)
        } else {
            prev
        }
    }
}

/// The column descriptions of a chunk: its `columns` list, none when it has
/// no such list.
pub open spec fn column_items(columns: Option<JsonValue>) -> Seq<JsonValue> {
    match columns {
        Some(JsonValue::Array(items)) => items@,
        _ => Seq::empty(),
    }
}

fn str_field(v: &JsonValue, key: &str, default: &str) -> (r: String)
    ensures
        r@ == str_or(get_field(*v, key@), default@),
{
    match field_ref(v, key) {
        Some(JsonValue::Str(s)) => String::from_str(s.as_str()),
        _ => String::from_str(default),
    }
}

fn bool_field(v: &JsonValue, key: &str, default: bool) -> (r: bool)
    ensures
        r == bool_or(get_field(*v, key@), default),
{
    match field_ref(v, key) {
        Some(JsonValue::Bool(b)) => *b,
        _ => default,
    }
}

/// The columns of a chunk that the client sees, in order: every described
/// column but the password hash, unless the caller is the system back end.
pub fn map_columns(columns: Option<&JsonValue>, system_bff: bool) -> (r: Vec<ColumnSchema>)
    ensures
        ({
            let items = column_items(
                match columns {
                    Some(c) => Some(*c),
                    None => None,
                },
            );
            let pos = shown_positions(items, system_bff);
            &&& r@.len() == pos.len()
            &&& forall|j: int| 0 <= j < pos.len() ==> column_schema_is(#[trigger] r@[j], items[pos[j]])
        }),
{
    let mut out: Vec<ColumnSchema> = Vec::new();
    match columns {
        Some(JsonValue::Array(items)) => {
            let mut i: usize = 0;
            while i < items.len()
                invariant
                    i <= items@.len(),
                    out@.len() == shown_positions(items@.take(i as int), system_bff).len(),
                    forall|j: int|
                        0 <= j < out@.len() ==> column_schema_is(
                            #[trigger] out@[j],
                            items@[shown_positions(items@.take(i as int), system_bff)[j]],
                        ),
                decreases items@.len() - i,
            {
                let ghost prev = shown_positions(items@.take(i as int), system_bff);
                proof {
                    assert(items@.take(i + 1).drop_last() =~= items@.take(i as int));
                    assert(items@.take(i + 1).last() == items@[i as int]);
                    lemma_shown_bounded(items@.take(i as int), system_bff);
                }
                let v = &items[i];
                let key = str_field(v, "key", "");
                if system_bff || !same_text(key.as_str(), "password_hash") {
                    let c = ColumnSchema {
                        key,
                        label: str_field(v, "label", ""),
                        kind: str_field(v, "type", ""),
                        format: str_field(v, "format", ""),
                        is_dimension: bool_field(v, "is_dimension", false),
                        is_measure: bool_field(v, "is_measure", false),
                    };
                    out.push(c);
                    proof {
                        assert forall|j: int| 0 <= j < out@.len() implies column_schema_is(
                            #[trigger] out@[j],
                            items@[shown_positions(items@.take(i + 1), system_bff)[j]],
                        ) by {
                            if j < prev.len() {
                                assert(shown_positions(items@.take(i + 1), system_bff)[j] == prev[j]);
                            }
                        }
                    }
                }
                i = i + 1;
            }
            proof {
                assert(items@.take(items@.len() as int) =~= items@);
            }
        },
        _ => {},
    }
    out
}

proof fn lemma_shown_bounded(cols: Seq<JsonValue>, system_bff: bool)
    ensures
        forall|j: int|
            0 <= j < shown_positions(cols, system_bff).len() ==> 0 <= #[trigger] shown_positions(cols, system_bff)[j]
                < cols.len(),
    decreases cols.len(),
{
    if cols.len() > 0 {
        let earlier = cols.drop_last();
        lemma_shown_bounded(earlier, system_bff);
        let p = shown_positions(cols, system_bff);
        assert forall|j: int| 0 <= j < p.len() implies 0 <= #[trigger] p[j] < cols.len() by {
            if j < shown_positions(earlier, system_bff).len() {
                assert(p[j] == shown_positions(earlier, system_bff)[j]);
            }
        }
    }
}

/// A value of a data row: the row's field at a position, or null when the
/// row has no field of the column's key.
pub open spec fn value_at(fields: Seq<(String, JsonValue)>, key: Seq<char>, v: Option<usize>) -> bool {
    match v {
        Some(k) => k < fields.len() && fields[k as int].0@ == key && field_of(fields, key) == Some(fields[k as int].1),
        None => field_of(fields, key) is None,
    }
}

/// `vals` are the values of the row `row` for the column keys `keys`.
pub open spec fn row_values_are(row: JsonValue, keys: Seq<String>, vals: Seq<Option<usize>>) -> bool {
    match row {
        JsonValue::Object(f) => vals.len() == keys.len() && forall|c: int|
            0 <= c < keys.len() ==> value_at(f@, keys[c]@, #[trigger] vals[c]),
        _ => false,
    }
}

/// The chunk asks for a CSV export.
pub open spec fn casts_csv(output_cast: Option<&str>) -> bool {
    match output_cast {
        Some(c) => c@ == "CSV_EXPORT"@,
        None => false,
    }
}

/// The rows of a chunk that are objects, by position, in order.
pub open spec fn object_positions(rows: Seq<JsonValue>) -> Seq<int>
    decreases rows.len(),
{
    if rows.len() == 0 {
        Seq::empty()
    } else {
        let prev = object_positions(rows.drop_last());
        if rows.last() is Object {
            prev.push(rows.len() - 1)
        } else {
            prev
        }
    }
}

/// The data rows of a chunk: one per object of its `data` list (other
/// items are skipped), each with, per column key in order, the position of
/// that field in the row (none for a null value).
pub fn map_data_rows(data: Option<&JsonValue>, keys: &Vec<String>) -> (r: Vec<(usize, Vec<Option<usize>>)>)
    ensures
        ({
            let rows = column_items(
                match data {
                    Some(d) => Some(*d),
                    None => None,
                },
            );
            let pos = object_positions(rows);
            &&& r@.len() == pos.len()
            &&& forall|j: int|
                0 <= j < pos.len() ==> (#[trigger] r@[j]).0 == pos[j] && row_values_are(rows[pos[j]], keys@, r@[j].1@)
        }),
{
    let mut out: Vec<(usize, Vec<Option<usize>>)> = Vec::new();
    match data {
        Some(JsonValue::Array(rows)) => {
            let mut i: usize = 0;
            while i < rows.len()
                invariant
                    i <= rows@.len(),
                    out@.len() == object_positions(rows@.take(i as int)).len(),
                    forall|j: int|
                        0 <= j < out@.len() ==> (#[trigger] out@[j]).0 == object_positions(rows@.take(i as int))[j]
                            && row_values_are(rows@[out@[j].0 as int], keys@, out@[j].1@),
                decreases rows@.len() - i,
            {
                let ghost prev = object_positions(rows@.take(i as int));
                proof {
                    assert(rows@.take(i + 1).drop_last() =~= rows@.take(i as int));
                    assert(rows@.take(i + 1).last() == rows@[i as int]);
                }
                match &rows[i] {
                    JsonValue::Object(fields) => {
                        let mut values: Vec<Option<usize>> = Vec::new();
                        let mut c: usize = 0;
                        while c < keys.len()
                            invariant
                                c <= keys@.len(),
                                values@.len() == c,
                                forall|b: int| 0 <= b < c ==> value_at(fields@, keys@[b]@, #[trigger] values@[b]),
                            decreases keys@.len() - c,
                        {
                            values.push(find_field(fields, keys[c].as_str()));
                            c = c + 1;
                        }
                        out.push((i, values));
                        proof {
                            assert forall|j: int| 0 <= j < out@.len() implies (#[trigger] out@[j]).0
                                == object_positions(rows@.take(i + 1))[j] by {
                                if j < prev.len() {
                                    assert(object_positions(rows@.take(i + 1))[j] == prev[j]);
                                }
                            }
                        }
                    },
                    _ => {},
                }
                i = i + 1;
            }
            proof {
                assert(rows@.take(rows@.len() as int) =~= rows@);
            }
        },
        _ => {},
    }
    out
}

/// The rows of a chunk go out as a CSV file when the chunk asks for a CSV
/// export, there are more than 5 000 of them, and an export store is set.
pub fn export_as_csv(output_cast: Option<&str>, rows: usize, has_store: bool) -> (r: bool)
    ensures
        r == (has_store && rows > 5000 && casts_csv(output_cast)),
{
    let csv = match output_cast {
        Some(c) => same_text(c, "CSV_EXPORT"),
        None => false,
    };
    has_store && rows > 5000 && csv
}

/// The caller is the system back end: one of its roles is `system-bff`.
pub fn is_system_bff(roles: &Vec<String>) -> (r: bool)
    ensures
        r == exists|i: int| 0 <= i < roles@.len() && (#[trigger] roles@[i])@ == "system-bff"@,
{
    let mut i: usize = 0;
    while i < roles.len()
        invariant
            i <= roles@.len(),
            forall|j: int| 0 <= j < i ==> (#[trigger] roles@[j])@ != "system-bff"@,
        decreases roles@.len() - i,
    {
        if same_text(roles[i].as_str(), "system-bff") {
            return true;
        }
        i = i + 1;
    }
    false
}

} // verus!
