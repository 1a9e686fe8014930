use metri_engine::export::{export_key, new_export_key, StubExportStorage};

#[test]
fn stub_export_answers_a_fresh_mock_address() {
    let storage = StubExportStorage::new();
    let a = storage.generate_presigned_url("tnt_01", "q1").unwrap();
    let b = storage.generate_presigned_url("tnt_01", "q1").unwrap();
    let prefix = "https://metri-mock-exports.s3.amazonaws.com/exports/mock_file_";
    assert!(a.starts_with(prefix));
    assert!(a.ends_with(".csv"));
    assert_eq!(a.len(), prefix.len() + 36 + 4);
    assert_ne!(a, b);
}

#[test]
fn exports_are_keyed_by_tenant_query_stamp_and_id() {
    assert_eq!(
        export_key("tnt_01", "q1", "20260801_134530", "01HZZZZZZZZZZZZZZZZZZZZZ01"),
        "exports/tnt_01/q1/20260801_134530_01HZZZZZZZZZZZZZZZZZZZZZ01.csv"
    );
    let k = new_export_key("tnt_02", "sales").unwrap();
    assert!(k.starts_with("exports/tnt_02/sales/"));
    assert!(k.ends_with(".csv"));
    // The stamp and the ULID: 15 and 26 characters around an underscore.
    assert_eq!(k.len(), "exports/tnt_02/sales/".len() + 15 + 1 + 26 + 4);
}
