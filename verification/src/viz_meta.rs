//! The visual decoration of a query chunk, read from the `viz` object that
//! the engine attaches to it: a signal, a chart, a breakdown, a table or a
//! tree. Every field falls back to its default when it is missing or of
//! another JSON type. Numbers keep the text the engine wrote; the caller
//! reads them as floating point.
use vstd::prelude::*;
use vstd::string::StringExecFns;
use crate::handlers::{field_ref, get_field, JsonValue};

verus! {

/// The text of `v` when it is a JSON string, else `default`.
pub open spec fn str_or(v: Option<JsonValue>, default: Seq<char>) -> Seq<char> {
    match v {
        Some(JsonValue::Str(s)) => s@,
        _ => default,
    }
}

/// `v` when it is a JSON boolean, else `default`.
pub open spec fn bool_or(v: Option<JsonValue>, default: bool) -> bool {
    match v {
        Some(JsonValue::Bool(b)) => b,
        _ => default,
    }
}

/// The text of `v` when it is a JSON number.
pub open spec fn number_of(v: Option<JsonValue>) -> Option<Seq<char>> {
    match v {
        Some(JsonValue::Number(t)) => Some(t@),
        _ => None,
    }
}

/// The texts of an optional number: `None` stays `None`.
pub open spec fn opt_view(o: Option<String>) -> Option<Seq<char>> {
    match o {
        Some(s) => Some(s@),
        None => None,
    }
}

/// The string items of a list, in order; other items are skipped.
pub open spec fn strings_of(items: Seq<JsonValue>) -> Seq<Seq<char>>
    decreases items.len(),
{
    if items.len() == 0 {
        Seq::empty()
    } else {
        let prev = strings_of(items.drop_last());
        match items.last() {
            JsonValue::Str(s) => prev.push(s@),
            _ => prev,
        }
    }
}

/// The texts of a list of strings.
pub open spec fn texts(v: Seq<String>) -> Seq<Seq<char>> {
    v.map_values(|s: String| s@)
}

fn str_field(v: &JsonValue, key: &str, default: &str) -> (r: String)
    ensures
        r@ == str_or(get_field(*v, key@), default@),
{
    match field_ref(v, key) {
        Some(JsonValue::Str(s)) => String::from_str(s.as_str()),
        _ => String::from_str(default),
    }
}

fn bool_field(v: &JsonValue, key: &str, default: bool) -> (r: bool)
    ensures
        r == bool_or(get_field(*v, key@), default),
{
    match field_ref(v, key) {
        Some(JsonValue::Bool(b)) => *b,
        _ => default,
    }
}

fn number_field(v: &JsonValue, key: &str) -> (r: Option<String>)
    ensures
        opt_view(r) == number_of(get_field(*v, key@)),
{
    match field_ref(v, key) {
        Some(JsonValue::Number(t)) => Some(String::from_str(t.as_str())),
        _ => None,
    }
}

/// The reading of a signal's trend.
#[derive(Debug)]
pub struct IntelligenceMeta {
    pub direction: String,
    pub percentage: Option<String>,
    pub delta_abs: Option<String>,
    pub previous_value: Option<String>,
    pub label: String,
    pub is_anomaly: bool,
    pub z_score: Option<String>,
    pub represents_initial: bool,
}

/// A single figure.
#[derive(Debug)]
pub struct SignalMeta {
    pub value: Option<String>,
    pub previous_value: Option<String>,
    pub unit: String,
    pub status_label: String,
    pub entity_ref: String,
    pub intelligence: Option<IntelligenceMeta>,
}

/// How a chart is drawn.
#[derive(Debug)]
pub struct ChartMeta {
    pub x_dimension: String,
    pub y_dimensions: Vec<String>,
    pub color_scheme: String,
    pub show_legend: bool,
    pub show_tooltip: bool,
    pub title: String,
    pub stacked: bool,
    pub smooth: bool,
    pub label_template: String,
    pub fill_gaps: bool,
    pub x_axis_label_template: String,
    pub y_axis_label_template: String,
    pub horizontal: bool,
}

/// A column of a table.
#[derive(Debug)]
pub struct TableColumnMeta {
    pub key: String,
    pub label: String,
    pub kind: String,
    pub sortable: bool,
    pub format: String,
}

/// The keys a tree is drawn by.
#[derive(Debug)]
pub struct TreeMeta {
    pub id_key: String,
    pub parent_id_key: String,
    pub label_key: String,
    pub has_children_key: String,
    pub icon_key: String,
}

/// The decoration proper.
#[derive(Debug)]
pub enum VizPayload {
    Signal(SignalMeta),
    Chart(ChartMeta),
    /// Each named signal of the breakdown and its value.
    Breakdown(Vec<(String, Option<String>)>),
    Table(Vec<TableColumnMeta>),
    Tree(TreeMeta),
}

/// The decoration of a chunk: its type and, when the payload is one of the
/// known kinds, that payload.
#[derive(Debug)]
pub struct VizMeta {
    pub viz_type: String,
    pub payload: Option<VizPayload>,
}

/// `m` is the trend reading of the object `v`.
pub open spec fn intelligence_is(m: IntelligenceMeta, v: JsonValue) -> bool {
    &&& m.direction@ == str_or(get_field(v, "direction"@), "neutral"@)
    &&& opt_view(m.percentage) == number_of(get_field(v, "percentage"@))
    &&& opt_view(m.delta_abs) == number_of(get_field(v, "delta_abs"@))
    &&& opt_view(m.previous_value) == number_of(get_field(v, "previous_value"@))
    &&& m.label@ == str_or(get_field(v, "label"@), ""@)
    &&& m.is_anomaly == bool_or(get_field(v, "is_anomaly"@), false)
    &&& opt_view(m.z_score) == number_of(get_field(v, "z_score"@))
    &&& m.represents_initial == bool_or(get_field(v, "represents_initial"@), false)
}

/// `m` is the signal that the object `v` describes.
pub open spec fn signal_is(m: SignalMeta, v: JsonValue) -> bool {
    &&& opt_view(m.value) == number_of(get_field(v, "value"@))
    &&& opt_view(m.previous_value) == number_of(get_field(v, "previous_value"@))
    &&& m.unit@ == str_or(get_field(v, "unit"@), ""@)
    &&& m.status_label@ == str_or(get_field(v, "status_label"@), ""@)
    &&& m.entity_ref@ == str_or(get_field(v, "entity_ref"@), ""@)
    &&& match get_field(v, "intelligence"@) {
        Some(i) => m.intelligence matches Some(x) && intelligence_is(x, i),
        None => m.intelligence is None,
    }
}

/// The y dimensions of a chart: the strings of its `y_dimensions` list.
pub open spec fn y_dimensions_of(v: JsonValue) -> Seq<Seq<char>> {
    match get_field(v, "y_dimensions"@) {
        Some(JsonValue::Array(items)) => strings_of(items@),
        _ => Seq::empty(),
    }
}

/// `m` is the chart that the object `v` describes.
pub open spec fn chart_is(m: ChartMeta, v: JsonValue) -> bool {
    &&& m.x_dimension@ == str_or(get_field(v, "x_dimension"@), ""@)
    &&& texts(m.y_dimensions@) == y_dimensions_of(v)
    &&& m.color_scheme@ == str_or(get_field(v, "color_scheme"@), ""@)
    &&& m.show_legend == bool_or(get_field(v, "show_legend"@), true)
    &&& m.show_tooltip == bool_or(get_field(v, "show_tooltip"@), true)
    &&& m.title@ == str_or(get_field(v, "title"@), ""@)
    &&& m.stacked == bool_or(get_field(v, "stacked"@), false)
    &&& m.smooth == bool_or(get_field(v, "smooth"@), false)
    &&& m.label_template@ == str_or(get_field(v, "label_template"@), ""@)
    &&& m.fill_gaps == bool_or(get_field(v, "fill_gaps"@), false)
    &&& m.x_axis_label_template@ == str_or(get_field(v, "x_axis_label_template"@), ""@)
    &&& m.y_axis_label_template@ == str_or(get_field(v, "y_axis_label_template"@), ""@)
    &&& m.horizontal == bool_or(get_field(v, "horizontal"@), false)
}

/// `m` is the column that the object `v` describes.
pub open spec fn column_is(m: TableColumnMeta, v: JsonValue) -> bool {
    &&& m.key@ == str_or(get_field(v, "key"@), ""@)
    &&& m.label@ == str_or(get_field(v, "label"@), ""@)
    &&& m.kind@ == str_or(get_field(v, "type"@), "string"@)
    &&& m.sortable == bool_or(get_field(v, "sortable"@), true)
    &&& m.format@ == str_or(get_field(v, "format"@), ""@)
}

/// `cols` are the columns of the table `v`: one per item of its `columns`
/// list, in order (none when it has no such list).
pub open spec fn columns_are(cols: Seq<TableColumnMeta>, v: JsonValue) -> bool {
    match get_field(v, "columns"@) {
        Some(JsonValue::Array(items)) => cols.len() == items@.len() && forall|i: int|
            0 <= i < cols.len() ==> column_is(#[trigger] cols[i], items@[i]),
        _ => cols.len() == 0,
    }
}

/// `m` is the tree that the object `v` describes.
pub open spec fn tree_is(m: TreeMeta, v: JsonValue) -> bool {
    &&& m.id_key@ == str_or(get_field(v, "id_key"@), ""@)
    &&& m.parent_id_key@ == str_or(get_field(v, "parent_id_key"@), ""@)
    &&& m.label_key@ == str_or(get_field(v, "label_key"@), ""@)
    &&& m.has_children_key@ == str_or(get_field(v, "has_children_key"@), ""@)
    &&& m.icon_key@ == str_or(get_field(v, "icon_key"@), ""@)
}

/// `b` are the named signals of the breakdown `v`: each field of its
/// `signals` object, in order, with the number of its `value` (none when
/// `signals` is not an object).
pub open spec fn breakdown_is(b: Seq<(String, Option<String>)>, v: JsonValue) -> bool {
    match get_field(v, "signals"@) {
        Some(JsonValue::Object(fields)) => b.len() == fields@.len() && forall|i: int|
            0 <= i < b.len() ==> (#[trigger] b[i]).0@ == fields@[i].0@ && opt_view(b[i].1) == number_of(
                get_field(fields@[i].1, "value"@),
            ),
        _ => b.len() == 0,
    }
}

/// `p` is the decoration that the payload `v` holds: its `signal`, else its
/// `chart`, else its `breakdown`, else its `table`, else its `tree`; none
/// when it has none of them.
pub open spec fn payload_is(p: Option<VizPayload>, v: JsonValue) -> bool {
    if get_field(v, "signal"@) is Some {
        p matches Some(VizPayload::Signal(m)) && signal_is(m, get_field(v, "signal"@)->0)
    } else if get_field(v, "chart"@) is Some {
        p matches Some(VizPayload::Chart(m)) && chart_is(m, get_field(v, "chart"@)->0)
    } else if get_field(v, "breakdown"@) is Some {
        p matches Some(VizPayload::Breakdown(b)) && breakdown_is(b@, get_field(v, "breakdown"@)->0)
    } else if get_field(v, "table"@) is Some {
        p matches Some(VizPayload::Table(c)) && columns_are(c@, get_field(v, "table"@)->0)
    } else if get_field(v, "tree"@) is Some {
        p matches Some(VizPayload::Tree(m)) && tree_is(m, get_field(v, "tree"@)->0)
    } else {
        p is None
    }
}

fn read_intelligence(v: &JsonValue) -> (r: IntelligenceMeta)
    ensures
        intelligence_is(r, *v),
{
    IntelligenceMeta {
        direction: str_field(v, "direction", "neutral"),
        percentage: number_field(v, "percentage"),
        delta_abs: number_field(v, "delta_abs"),
        previous_value: number_field(v, "previous_value"),
        label: str_field(v, "label", ""),
        is_anomaly: bool_field(v, "is_anomaly", false),
        z_score: number_field(v, "z_score"),
        represents_initial: bool_field(v, "represents_initial", false),
    }
}

fn read_signal(v: &JsonValue) -> (r: SignalMeta)
    ensures
        signal_is(r, *v),
{
    let intelligence = match field_ref(v, "intelligence") {
        Some(i) => Some(read_intelligence(i)),
        None => None,
    };
    SignalMeta {
        value: number_field(v, "value"),
        previous_value: number_field(v, "previous_value"),
        unit: str_field(v, "unit", ""),
        status_label: str_field(v, "status_label", ""),
        entity_ref: str_field(v, "entity_ref", ""),
        intelligence,
    }
}

fn read_strings(items: &Vec<JsonValue>) -> (r: Vec<String>)
    ensures
        texts(r@) == strings_of(items@),
{
    let mut r: Vec<String> = Vec::new();
    let mut i: usize = 0;
    while i < items.len()
        invariant
            i <= items@.len(),
            texts(r@) == strings_of(items@.take(i as int)),
        decreases items@.len() - i,
    {
        proof {
            assert(items@.take(i + 1).drop_last() =~= items@.take(i as int));
            assert(items@.take(i + 1).last() == items@[i as int]);
        }
        match &items[i] {
            JsonValue::Str(s) => {
                let ghost before = r@;
                r.push(String::from_str(s.as_str()));
                proof {
                    assert(texts(r@) =~= texts(before).push(s@));
                }
            },
            _ => {},
        }
        i = i + 1;
    }
    proof {
        assert(items@.take(items@.len() as int) =~= items@);
    }
    r
}

fn read_chart(v: &JsonValue) -> (r: ChartMeta)
    ensures
        chart_is(r, *v),
{
    let y_dimensions = match field_ref(v, "y_dimensions") {
        Some(JsonValue::Array(items)) => read_strings(items),
        _ => {
            let e: Vec<String> = Vec::new();
            proof {
                assert(texts(e@) =~= Seq::<Seq<char>>::empty());
            }
            e
        },
    };
    ChartMeta {
        x_dimension: str_field(v, "x_dimension", ""),
        y_dimensions,
        color_scheme: str_field(v, "color_scheme", ""),
        show_legend: bool_field(v, "show_legend", true),
        show_tooltip: bool_field(v, "show_tooltip", true),
        title: str_field(v, "title", ""),
        stacked: bool_field(v, "stacked", false),
        smooth: bool_field(v, "smooth", false),
        label_template: str_field(v, "label_template", ""),
        fill_gaps: bool_field(v, "fill_gaps", false),
        x_axis_label_template: str_field(v, "x_axis_label_template", ""),
        y_axis_label_template: str_field(v, "y_axis_label_template", ""),
        horizontal: bool_field(v, "horizontal", false),
    }
}

fn read_column(v: &JsonValue) -> (r: TableColumnMeta)
    ensures
        column_is(r, *v),
{
    TableColumnMeta {
        key: str_field(v, "key", ""),
        label: str_field(v, "label", ""),
        kind: str_field(v, "type", "string"),
        sortable: bool_field(v, "sortable", true),
        format: str_field(v, "format", ""),
    }
}

fn read_columns(v: &JsonValue) -> (r: Vec<TableColumnMeta>)
    ensures
        columns_are(r@, *v),
{
    let mut r: Vec<TableColumnMeta> = Vec::new();
    match field_ref(v, "columns") {
        Some(JsonValue::Array(items)) => {
            let mut i: usize = 0;
            while i < items.len()
                invariant
                    i <= items@.len(),
                    r@.len() == i,
                    forall|j: int| 0 <= j < i ==> column_is(#[trigger] r@[j], items@[j]),
                decreases items@.len() - i,
            {
                r.push(read_column(&items[i]));
                i = i + 1;
            }
        },
        _ => {},
    }
    r
}

fn read_tree(v: &JsonValue) -> (r: TreeMeta)
    ensures
        tree_is(r, *v),
{
    TreeMeta {
        id_key: str_field(v, "id_key", ""),
        parent_id_key: str_field(v, "parent_id_key", ""),
        label_key: str_field(v, "label_key", ""),
        has_children_key: str_field(v, "has_children_key", ""),
        icon_key: str_field(v, "icon_key", ""),
    }
}

fn read_breakdown(v: &JsonValue) -> (r: Vec<(String, Option<String>)>)
    ensures
        breakdown_is(r@, *v),
{
    let mut r: Vec<(String, Option<String>)> = Vec::new();
    match field_ref(v, "signals") {
        Some(JsonValue::Object(fields)) => {
            let mut i: usize = 0;
            while i < fields.len()
                invariant
                    i <= fields@.len(),
                    r@.len() == i,
                    forall|j: int|
                        0 <= j < i ==> (#[trigger] r@[j]).0@ == fields@[j].0@ && opt_view(r@[j].1) == number_of(
                            get_field(fields@[j].1, "value"@),
                        ),
                decreases fields@.len() - i,
            {
                let name = String::from_str(fields[i].0.as_str());
                let value = number_field(&fields[i].1, "value");
                r.push((name, value));
                i = i + 1;
            }
        },
        _ => {},
    }
    r
}

/// Reads the decoration of a query chunk from its `viz` object, when it has
/// one: the object's `type` (empty when missing) and the decoration its
/// `payload` holds.
pub fn map_viz_meta(viz: Option<&JsonValue>) -> (r: Option<VizMeta>)
    ensures
        match viz {
            None => r is None,
            Some(v) => r matches Some(m) && m.viz_type@ == str_or(get_field(*v, "type"@), ""@) && match get_field(
                *v,
                "payload"@,
            ) {
                Some(p) => payload_is(m.payload, p),
                None => m.payload is None,
            },
        },
{
    match viz {
        None => None,
        Some(v) => {
            let viz_type = str_field(v, "type", "");
            let payload = match field_ref(v, "payload") {
                None => None,
                Some(p) => {
                    if let Some(s) = field_ref(p, "signal") {
                        Some(VizPayload::Signal(read_signal(s)))
                    } else if let Some(c) = field_ref(p, "chart") {
                        Some(VizPayload::Chart(read_chart(c)))
                    } else if let Some(b) = field_ref(p, "breakdown") {
                        Some(VizPayload::Breakdown(read_breakdown(b)))
                    } else if let Some(t) = field_ref(p, "table") {
                        Some(VizPayload::Table(read_columns(t)))
                    } else if let Some(t) = field_ref(p, "tree") {
                        Some(VizPayload::Tree(read_tree(t)))
                    } else {
                        None
                    }
                },
            };
            Some(VizMeta { viz_type, payload })
        },
    }
}

} // verus!
