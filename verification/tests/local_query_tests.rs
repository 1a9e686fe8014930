use metri_engine::errors::ErrorCode;
use metri_engine::handlers::{parent_group_of, JsonValue};
use metri_engine::lake::{build_attr_type_map, is_truncatable, truncate_timestamp};
use metri_engine::local_query::{
    order_and_limit, plan_local_query, run_local_query, select_records, CellSource, JsonFilter, LocalResult,
};

fn s(x: &str) -> String {
    x.to_string()
}

fn rec(fields: Vec<(&str, JsonValue)>) -> Vec<(String, JsonValue)> {
    fields.into_iter().map(|(k, v)| (k.to_string(), v)).collect()
}

#[test]
fn test_plan_local_query_errors() {
    let e = plan_local_query("SELECT 1").unwrap_err();
    assert_eq!(e.code, ErrorCode::Aeg004);
    assert_eq!(e.detail, "No se pudo extraer la entidad del SQL");
    let e = plan_local_query("FROM sensor").unwrap_err();
    assert_eq!(e.detail, "No se pudieron extraer columnas de la consulta SQL");
}

#[test]
fn test_plan_local_query_reads_the_text() {
    let p = plan_local_query("SELECT id, status FROM metri.sensor WHERE status = 'on' LIMIT 5").unwrap();
    assert_eq!(p.entity, "sensor");
    assert_eq!(p.columns.len(), 2);
    assert_eq!(p.limit, Some(5));
    assert!(!p.aggregate);
    assert_eq!(p.max_scan_records, 5);
    let p = plan_local_query("SELECT status, COUNT(*) AS n FROM sensor GROUP BY status").unwrap();
    assert!(p.aggregate);
    assert_eq!(p.max_scan_records, 50000);
    let p = plan_local_query("SELECT id FROM sensor").unwrap();
    assert_eq!(p.max_scan_records, 2000);
}

#[test]
fn test_select_records_filters_window_and_cap() {
    let types = build_attr_type_map(None);
    let records = vec![
        rec(vec![("status", JsonValue::Str(s("on"))), ("timestamp", JsonValue::Number(s("100")))]),
        rec(vec![("status", JsonValue::Str(s("off"))), ("timestamp", JsonValue::Number(s("100")))]),
        rec(vec![("status", JsonValue::Str(s("on"))), ("timestamp", JsonValue::Number(s("5")))]),
        rec(vec![("status", JsonValue::Str(s("on")))]),
        rec(vec![("status", JsonValue::Str(s("on"))), ("timestamp", JsonValue::Str(s("150")))]),
    ];
    let filters = vec![(s("status"), JsonFilter::Equals(JsonValue::Str(s("on"))))];
    assert_eq!(select_records(&records, &types, &filters, Some(50), None, 10), vec![0, 3, 4]);
    assert_eq!(select_records(&records, &types, &filters, Some(50), None, 2), vec![0, 3]);
    let any = vec![(s("missing"), JsonFilter::AnyOf(vec![JsonValue::Null]))];
    assert_eq!(select_records(&records, &types, &any, None, None, 10).len(), 5);
}

#[test]
fn test_select_records_coerces_epoch_strings() {
    let types = build_attr_type_map(None);
    let records = vec![rec(vec![("created_at", JsonValue::Str(s("1700000000")))])];
    let filters = vec![(s("created_at"), JsonFilter::Equals(JsonValue::Number(s("1700000000"))))];
    assert_eq!(select_records(&records, &types, &filters, None, None, 10), vec![0]);
}

#[test]
fn test_run_local_query_orders_latest_first() {
    let plan = plan_local_query("SELECT id, timestamp FROM sensor LIMIT 2").unwrap();
    let types = build_attr_type_map(None);
    let records = vec![
        rec(vec![("id", JsonValue::Str(s("a"))), ("timestamp", JsonValue::Number(s("10")))]),
        rec(vec![("id", JsonValue::Str(s("b"))), ("timestamp", JsonValue::Number(s("30")))]),
        rec(vec![("id", JsonValue::Str(s("c"))), ("timestamp", JsonValue::Number(s("20")))]),
    ];
    match run_local_query(&plan, &types, &vec![], &records) {
        LocalResult::Rows(out) => {
            // The limit also caps the scan: only the first two records are kept.
            assert_eq!(out.rows.len(), 2);
            assert_eq!(out.order, vec![1, 0]);
            assert_eq!(out.rows[1].time, 30);
            assert_eq!(out.rows[1].cells[0].1, CellSource::Recorded(0));
        },
        LocalResult::Aggregate(_) => panic!("not an aggregate query"),
    }
}

#[test]
fn test_run_local_query_buckets() {
    let plan = plan_local_query("SELECT date_trunc('day', timestamp) AS bucket FROM sensor").unwrap();
    let types = build_attr_type_map(None);
    let records = vec![rec(vec![("timestamp", JsonValue::Number(s("90000")))])];
    match run_local_query(&plan, &types, &vec![], &records) {
        LocalResult::Rows(out) => {
            assert_eq!(out.rows[0].cells[0].1, CellSource::Bucket(86400));
            assert_eq!(out.rows[0].time, 86400);
        },
        LocalResult::Aggregate(_) => panic!("not an aggregate query"),
    }
}

#[test]
fn test_order_and_limit_is_stable() {
    assert_eq!(order_and_limit(&vec![5, 9, 5, 1], None), vec![1, 0, 2, 3]);
    assert_eq!(order_and_limit(&vec![5, 9, 5, 1], Some(2)), vec![1, 0]);
}

#[test]
fn test_truncation_range_and_kelvin_sign() {
    assert!(is_truncatable(-8_334_601_228_800, "month"));
    assert!(!is_truncatable(-8_334_601_228_801, "month"));
    assert_eq!(truncate_timestamp(-8_334_601_228_800, "year"), -8_334_601_228_800);
    // "WEEK" with the Kelvin sign, which lower-cases to "k".
    assert_eq!(truncate_timestamp(1_000_000, "WEE\u{212A}"), truncate_timestamp(1_000_000, "week"));
}

#[test]
fn test_parent_group_of_payload() {
    let p = JsonValue::Object(vec![(s("user_group/parent_user_group_id"), JsonValue::Str(s("grp_1")))]);
    assert_eq!(parent_group_of(&p), "grp_1");
    let p = JsonValue::Object(vec![
        (s("parent_user_group_id"), JsonValue::Null),
        (s("user_group/parent_user_group_id"), JsonValue::Str(s("grp_1"))),
    ]);
    assert_eq!(parent_group_of(&p), "");
}
