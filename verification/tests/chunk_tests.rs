use metri_engine::chunk::{export_as_csv, is_system_bff, map_columns, map_data_rows};
use metri_engine::handlers::JsonValue;

fn s(x: &str) -> String {
    x.to_string()
}

fn obj(fields: Vec<(&str, JsonValue)>) -> JsonValue {
    JsonValue::Object(fields.into_iter().map(|(k, v)| (k.to_string(), v)).collect())
}

#[test]
fn test_password_hash_hidden_unless_system_bff() {
    let cols = JsonValue::Array(vec![
        obj(vec![("key", JsonValue::Str(s("id"))), ("is_dimension", JsonValue::Bool(true))]),
        obj(vec![("key", JsonValue::Str(s("password_hash")))]),
    ]);
    let shown = map_columns(Some(&cols), false);
    assert_eq!(shown.len(), 1);
    assert_eq!(shown[0].key, "id");
    assert!(shown[0].is_dimension);
    assert!(!shown[0].is_measure);
    assert_eq!(map_columns(Some(&cols), true).len(), 2);
    assert!(map_columns(None, true).is_empty());
}

#[test]
fn test_data_rows_follow_column_keys() {
    let data = JsonValue::Array(vec![
        obj(vec![("b", JsonValue::Number(s("2"))), ("a", JsonValue::Str(s("x")))]),
        JsonValue::Null,
        obj(vec![("a", JsonValue::Str(s("y")))]),
    ]);
    let rows = map_data_rows(Some(&data), &vec![s("a"), s("b")]);
    assert_eq!(rows, vec![(0, vec![Some(1), Some(0)]), (2, vec![Some(0), None])]);
}

#[test]
fn test_csv_export_and_roles() {
    assert!(export_as_csv(Some("CSV_EXPORT"), 5001, true));
    assert!(!export_as_csv(Some("CSV_EXPORT"), 5000, true));
    assert!(!export_as_csv(Some("CSV_EXPORT"), 9000, false));
    assert!(!export_as_csv(Some("TABLE"), 9000, true));
    assert!(is_system_bff(&vec![s("viewer"), s("system-bff")]));
    assert!(!is_system_bff(&vec![s("viewer")]));
}
