use metri_engine::codice::{AttrType, AttributeDescriptor};
use metri_engine::glue::{build_entity_columns, codice_to_glue_type, columns_up_to_date, glue_table_name};

fn attr(name: &str, attr_type: AttrType) -> AttributeDescriptor {
    AttributeDescriptor { name: name.to_string(), attr_type, required: false, indexed: false, sensitive: false }
}

#[test]
fn catalogue_types_of_attribute_types() {
    assert_eq!(codice_to_glue_type(&AttrType::Decimal), "double");
    assert_eq!(codice_to_glue_type(&AttrType::Epoch), "bigint");
    assert_eq!(codice_to_glue_type(&AttrType::Number), "bigint");
    assert_eq!(codice_to_glue_type(&AttrType::Boolean), "boolean");
    assert_eq!(codice_to_glue_type(&AttrType::Uuid), "string");
}

#[test]
fn entity_columns_start_with_the_system_columns() {
    let cols = build_entity_columns(Some(&vec![
        attr("reading-value", AttrType::Decimal),
        attr("id", AttrType::String),
        attr("active", AttrType::Boolean),
    ]));
    let named: Vec<(String, String)> = cols.into_iter().map(|c| (c.name, c.glue_type)).collect();
    let expected: Vec<(String, String)> = [
        ("id", "string"),
        ("_tenant", "string"),
        ("created_at", "bigint"),
        ("reading_value", "double"),
        ("active", "boolean"),
    ]
    .iter()
    .map(|(a, b)| (a.to_string(), b.to_string()))
    .collect();
    assert_eq!(named, expected);
    assert_eq!(build_entity_columns(None).len(), 3);
}

#[test]
fn tables_are_named_like_their_entities() {
    assert_eq!(glue_table_name("sensor-reading"), "sensor_reading");
    assert_eq!(glue_table_name("asset"), "asset");
}

#[test]
fn a_table_is_up_to_date_when_it_names_the_same_columns() {
    let wanted = build_entity_columns(Some(&vec![attr("v", AttrType::Decimal)]));
    let names = |v: &[&str]| v.iter().map(|s| s.to_string()).collect::<Vec<String>>();
    assert!(columns_up_to_date(&names(&["v", "created_at", "_tenant", "id"]), &wanted));
    assert!(columns_up_to_date(&names(&["id", "_tenant", "created_at", "v", "v"]), &wanted));
    assert!(!columns_up_to_date(&names(&["id", "_tenant", "created_at"]), &wanted));
    assert!(!columns_up_to_date(&names(&["id", "_tenant", "created_at", "v", "w"]), &wanted));
}
