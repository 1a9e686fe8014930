use metri_engine::codice::{AttrType, AttributeDescriptor, CodeRegistry, EntityModel};
use metri_engine::errors::ErrorCode;
use metri_engine::list_support::{sort_and_truncate, validate_list_filters};

fn attr(name: &str, attr_type: AttrType, indexed: bool) -> AttributeDescriptor {
    AttributeDescriptor {
        name: name.to_string(),
        attr_type,
        required: false,
        indexed,
        sensitive: false,
    }
}

/// The scheduled-job model as the schema declares it: `status` is a dimension
/// without the `indexed` flag, `tags` is an array.
fn list_test_registry() -> CodeRegistry {
    CodeRegistry {
        models: vec![EntityModel {
            entity: "scheduled_job".to_string(),
            attributes: vec![
                attr("name", AttrType::String, true),
                attr("status", AttrType::String, false),
                attr("trigger_type", AttrType::Enum, false),
                attr("action_payload", AttrType::Json, false),
                attr("tags", AttrType::Array, false),
                attr("next_run_at", AttrType::Epoch, true),
            ],
        }],
    }
}

#[test]
fn list_filters_acepta_status_aunque_no_declare_index() {
    let reg = list_test_registry();
    let model = reg
        .get_model("scheduled_job")
        .expect("scheduled_job en el Códice");
    assert!(
        validate_list_filters(model, &["status"]).is_ok(),
        "status debe aceptarse como filtro"
    );
}

#[test]
fn list_filters_rechaza_atributo_inexistente() {
    let reg = list_test_registry();
    let model = reg.get_model("scheduled_job").unwrap();
    let err = validate_list_filters(model, &["no_existe"]);
    assert!(err.is_err(), "un atributo inexistente debe rechazarse");
    assert!(err.unwrap_err().detail.contains("no_existe"));
}

#[test]
fn list_filters_rechaza_tipos_no_indexables() {
    let reg = list_test_registry();
    let model = reg.get_model("scheduled_job").unwrap();
    let arrays: Vec<&str> = model
        .attributes
        .iter()
        .filter(|a| matches!(a.attr_type, AttrType::Array))
        .map(|a| a.name.as_str())
        .collect();
    assert!(!arrays.is_empty());
    for name in arrays {
        assert!(
            validate_list_filters(model, &[name]).is_err(),
            "'{}' es Array y no debe admitirse como filtro",
            name
        );
    }
}

#[test]
fn list_filters_acepta_varios_a_la_vez() {
    let reg = list_test_registry();
    let model = reg.get_model("scheduled_job").unwrap();
    assert!(validate_list_filters(model, &["status", "trigger_type"]).is_ok());
}

#[test]
fn list_filters_details_name_the_offending_attribute() {
    let reg = list_test_registry();
    let model = reg.get_model("scheduled_job").unwrap();
    let err = validate_list_filters(model, &["status", "no_existe", "tags"]).unwrap_err();
    assert_eq!(err.code, ErrorCode::Janus400);
    assert_eq!(err.detail, "'no_existe' no es un atributo de 'scheduled_job'");
    let err = validate_list_filters(model, &["tags"]).unwrap_err();
    assert_eq!(
        err.detail,
        "'tags' es de tipo no indexable en AVET: no se puede filtrar por el"
    );
    assert!(validate_list_filters(model, &[]).is_ok());
}

#[test]
fn registry_lookup_misses_unknown_entities() {
    let reg = list_test_registry();
    assert!(reg.get_model("unknown_entity").is_none());
    assert_eq!(reg.get_model("scheduled_job").unwrap().entity, "scheduled_job");
}

#[test]
fn sort_and_truncate_marca_lo_que_deja_fuera() {
    let mut ids = vec!["c".into(), "a".into(), "b".into()];
    let truncated = sort_and_truncate(&mut ids, 2);
    assert!(truncated, "3 ids con limit 2 deben marcarse truncados");
    assert_eq!(ids, vec!["a".to_string(), "b".to_string()]);
}

#[test]
fn sort_and_truncate_no_marca_si_cabe_entero() {
    let mut ids = vec!["b".into(), "a".into()];
    assert!(!sort_and_truncate(&mut ids, 5));
    assert_eq!(ids, vec!["a".to_string(), "b".to_string()]);
}

#[test]
fn sort_and_truncate_es_determinista() {
    let mut a = vec!["z".into(), "m".into(), "a".into(), "k".into()];
    let mut b = vec!["k".into(), "a".into(), "z".into(), "m".into()];
    sort_and_truncate(&mut a, 2);
    sort_and_truncate(&mut b, 2);
    assert_eq!(a, b, "el mismo conjunto en otro orden debe recortarse igual");
}

#[test]
fn sort_and_truncate_orders_by_characters_and_keeps_exact_limit() {
    let mut ids = vec!["ab".into(), "a".into(), "b".into(), "aa".into()];
    assert!(!sort_and_truncate(&mut ids, 4));
    assert_eq!(ids, vec!["a", "aa", "ab", "b"]);
    let mut none: Vec<String> = vec![];
    assert!(!sort_and_truncate(&mut none, 0));
    let mut one = vec!["x".to_string()];
    assert!(sort_and_truncate(&mut one, 0));
    assert!(one.is_empty());
}
