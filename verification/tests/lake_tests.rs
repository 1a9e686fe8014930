use metri_engine::codice::{AttrType, AttributeDescriptor};
use metri_engine::lake::{
    bucket_value, column_read, ColumnRead, build_attr_type_map, extract_ts, record_time, to_seconds, truncate_timestamp, within_time_range,
    TimeField,
};

#[test]
fn record_time_prefers_timestamp_then_created_at() {
    let ts = TimeField::Int(10);
    let ca = TimeField::Text("20".to_string());
    assert_eq!(record_time(Some(&ts), Some(&ca)), Some(10));
    assert_eq!(record_time(None, Some(&ca)), Some(20));
    let bad = TimeField::Text("x".to_string());
    assert_eq!(record_time(Some(&bad), Some(&ca)), None, "the first present field decides");
    assert_eq!(record_time(Some(&TimeField::Other), None), None);
}

#[test]
fn time_window_compares_in_seconds() {
    assert_eq!(to_seconds(1_700_000_000_123), 1_700_000_000);
    assert_eq!(to_seconds(1_700_000_000), 1_700_000_000);
    assert!(within_time_range(Some(1_700_000_000_500), Some(1_700_000_000), Some(1_700_000_000)));
    assert!(!within_time_range(Some(1_699_999_999), Some(1_700_000_000_000), None));
    assert!(!within_time_range(Some(1_700_000_001), None, Some(1_700_000_000)));
    assert!(within_time_range(None, Some(5), Some(6)), "records without time are kept");
    assert!(within_time_range(Some(1), None, None));
}

#[test]
fn extract_ts_prefiere_timestamp_luego_created_at() {
    let a = TimeField::Int(3);
    let b = TimeField::Int(2);
    let c = TimeField::Text("7".to_string());
    assert_eq!(extract_ts(Some(&a), Some(&b), None, None), 3);
    assert_eq!(extract_ts(None, Some(&b), Some(&c), None), 2);
    assert_eq!(extract_ts(None, None, Some(&c), None), 7);
    assert_eq!(extract_ts(None, None, None, Some(&b)), 2);
    assert_eq!(extract_ts(None, None, None, None), 0);
    assert_eq!(extract_ts(Some(&TimeField::Other), Some(&b), None, None), 0);
}

#[test]
fn date_trunc_buckets() {
    // 2024-03-14T15:09:26Z, a Thursday.
    let t = 1_710_428_966;
    assert_eq!(truncate_timestamp(t, "minute"), 1_710_428_940);
    assert_eq!(truncate_timestamp(t, "HOUR"), 1_710_428_400);
    assert_eq!(truncate_timestamp(t, "day"), 1_710_374_400);
    assert_eq!(truncate_timestamp(t, "week"), 1_710_115_200, "Monday 2024-03-11");
    assert_eq!(truncate_timestamp(t, "month"), 1_709_251_200, "2024-03-01");
    assert_eq!(truncate_timestamp(t, "year"), 1_704_067_200, "2024-01-01");
    assert_eq!(truncate_timestamp(t, "fortnight"), t);
    assert_eq!(truncate_timestamp(t * 1000 + 5, "day"), 1_710_374_400_000, "milliseconds stay milliseconds");
}

#[test]
fn attr_types_include_system_fields() {
    let attrs = vec![
        AttributeDescriptor { name: "v".into(), attr_type: AttrType::Decimal, required: false, indexed: false, sensitive: false },
        AttributeDescriptor { name: "created_at".into(), attr_type: AttrType::String, required: false, indexed: false, sensitive: false },
    ];
    let m = build_attr_type_map(Some(&attrs));
    assert_eq!(m.get("v"), Some(AttrType::Decimal));
    assert_eq!(m.get("created_at"), Some(AttrType::Epoch), "system fields win");
    assert_eq!(m.get("id"), Some(AttrType::String));
    assert_eq!(m.get("_tenant"), Some(AttrType::String));
    assert_eq!(m.get("missing"), None);
    let bare = build_attr_type_map(None);
    assert_eq!(bare.get("tenant_id"), Some(AttrType::String));
    assert_eq!(bare.get("v"), None);
}

#[test]
fn times_before_the_epoch_are_floored_downwards() {
    assert_eq!(truncate_timestamp(-1, "minute"), -60);
    assert_eq!(truncate_timestamp(-1, "hour"), -3600);
    assert_eq!(truncate_timestamp(-1, "day"), -86400);
    // 1969-12-31 is a Wednesday: its week starts on Monday 1969-12-29.
    assert_eq!(truncate_timestamp(-1, "week"), -3 * 86400);
    assert_eq!(truncate_timestamp(-1, "month"), -31 * 86400);
    assert_eq!(truncate_timestamp(-1, "year"), -365 * 86400);
    assert_eq!(truncate_timestamp(-86400, "day"), -86400);
    assert_eq!(truncate_timestamp(0, "week"), -3 * 86400);
}

#[test]
fn projected_columns_read_buckets_or_fields() {
    assert_eq!(
        column_read("DATE_TRUNC('hour', created_at) AS bucket"),
        ColumnRead::Bucket { field: "created_at", interval: "hour" }
    );
    assert_eq!(column_read("date_trunc(x)"), ColumnRead::Bucket { field: "timestamp", interval: "day" });
    assert_eq!(
        column_read("date_trunc('week', event_ts)"),
        ColumnRead::Bucket { field: "event_ts", interval: "week" }
    );
    assert_eq!(column_read(" t.\"reading_value\" "), ColumnRead::Field("reading_value".to_string()));
}

#[test]
fn buckets_need_a_positive_time() {
    let t = TimeField::Text("1785590730".to_string());
    assert_eq!(bucket_value(Some(&t), "day"), Some(1785542400));
    assert_eq!(bucket_value(Some(&TimeField::Int(1785590730000)), "hour"), Some(1785589200000));
    assert_eq!(bucket_value(Some(&TimeField::Int(-5)), "day"), None);
    assert_eq!(bucket_value(Some(&TimeField::Other), "day"), None);
    assert_eq!(bucket_value(None, "day"), None);
}
