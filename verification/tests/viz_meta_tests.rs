use metri_engine::handlers::JsonValue;
use metri_engine::viz_meta::{map_viz_meta, VizPayload};

fn s(x: &str) -> String {
    x.to_string()
}

fn obj(fields: Vec<(&str, JsonValue)>) -> JsonValue {
    JsonValue::Object(fields.into_iter().map(|(k, v)| (k.to_string(), v)).collect())
}

#[test]
fn test_viz_absent() {
    assert!(map_viz_meta(None).is_none());
}

#[test]
fn test_viz_signal_with_defaults() {
    let viz = obj(vec![
        ("type", JsonValue::Str(s("kpi"))),
        (
            "payload",
            obj(vec![(
                "signal",
                obj(vec![
                    ("value", JsonValue::Number(s("12.5"))),
                    ("unit", JsonValue::Str(s("kWh"))),
                    ("intelligence", obj(vec![("is_anomaly", JsonValue::Bool(true))])),
                ]),
            )]),
        ),
    ]);
    let m = map_viz_meta(Some(&viz)).unwrap();
    assert_eq!(m.viz_type, "kpi");
    match m.payload {
        Some(VizPayload::Signal(sig)) => {
            assert_eq!(sig.value, Some(s("12.5")));
            assert_eq!(sig.previous_value, None);
            assert_eq!(sig.unit, "kWh");
            assert_eq!(sig.status_label, "");
            let intel = sig.intelligence.unwrap();
            assert_eq!(intel.direction, "neutral");
            assert!(intel.is_anomaly);
            assert!(!intel.represents_initial);
            assert_eq!(intel.z_score, None);
        },
        other => panic!("unexpected payload {:?}", other),
    }
}

#[test]
fn test_viz_chart_defaults_and_dimensions() {
    let viz = obj(vec![(
        "payload",
        obj(vec![(
            "chart",
            obj(vec![
                ("x_dimension", JsonValue::Str(s("day"))),
                ("y_dimensions", JsonValue::Array(vec![JsonValue::Str(s("a")), JsonValue::Null, JsonValue::Str(s("b"))])),
                ("show_legend", JsonValue::Bool(false)),
            ]),
        )]),
    )]);
    let m = map_viz_meta(Some(&viz)).unwrap();
    assert_eq!(m.viz_type, "");
    match m.payload {
        Some(VizPayload::Chart(c)) => {
            assert_eq!(c.x_dimension, "day");
            assert_eq!(c.y_dimensions, vec![s("a"), s("b")]);
            assert!(!c.show_legend);
            assert!(c.show_tooltip);
            assert!(!c.stacked);
        },
        other => panic!("unexpected payload {:?}", other),
    }
}

#[test]
fn test_viz_table_and_breakdown() {
    let table = obj(vec![(
        "payload",
        obj(vec![(
            "table",
            obj(vec![("columns", JsonValue::Array(vec![obj(vec![("key", JsonValue::Str(s("id")))])]))]),
        )]),
    )]);
    match map_viz_meta(Some(&table)).unwrap().payload {
        Some(VizPayload::Table(cols)) => {
            assert_eq!(cols.len(), 1);
            assert_eq!(cols[0].key, "id");
            assert_eq!(cols[0].kind, "string");
            assert!(cols[0].sortable);
        },
        other => panic!("unexpected payload {:?}", other),
    }
    let breakdown = obj(vec![(
        "payload",
        obj(vec![(
            "breakdown",
            obj(vec![("signals", obj(vec![("north", obj(vec![("value", JsonValue::Number(s("3")))]))]))]),
        )]),
    )]);
    match map_viz_meta(Some(&breakdown)).unwrap().payload {
        Some(VizPayload::Breakdown(b)) => assert_eq!(b, vec![(s("north"), Some(s("3")))]),
        other => panic!("unexpected payload {:?}", other),
    }
    let none = obj(vec![("payload", obj(vec![("other", JsonValue::Null)]))]);
    assert!(map_viz_meta(Some(&none)).unwrap().payload.is_none());
}
