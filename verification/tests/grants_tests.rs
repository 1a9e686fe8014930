use metri_engine::errors::RpcCode;
use metri_engine::grants::{validate_role_grants, GrantActions, GrantItem, GrantObject, GrantsValue};

fn text(s: &str) -> GrantItem {
    GrantItem::Text { text: s.to_string(), as_object: None }
}

fn obj(domain: Option<&str>, actions: GrantActions) -> GrantObject {
    GrantObject { domain: domain.map(|d| d.to_string()), actions }
}

#[test]
fn well_formed_grants_pass() {
    let g = GrantsValue::List(vec![text("sensor:VIEW"), text("*:CREATE"), text("a-b_c:*")]);
    assert!(validate_role_grants(&g).is_ok());
    let g = GrantsValue::Object(obj(Some("sensor"), GrantActions::List(vec![Some("VIEW".into()), Some("APPROVE".into())])));
    assert!(validate_role_grants(&g).is_ok());
    let g = GrantsValue::Object(obj(Some("sensor"), GrantActions::Missing));
    assert!(validate_role_grants(&g).is_ok());
}

#[test]
fn a_string_grant_must_follow_the_pattern() {
    let g = GrantsValue::List(vec![text("sensor:VIEW"), text("sensor VIEW")]);
    let e = validate_role_grants(&g).unwrap_err();
    assert_eq!(e.code, RpcCode::InvalidArgument);
    assert_eq!(
        e.message,
        "Invalid grant format 'sensor VIEW'. Grants must match pattern '^[a-zA-Z0-9_\\-]+:[a-zA-Z0-9_\\-*]+$'."
    );
    assert!(validate_role_grants(&GrantsValue::List(vec![text("a:b:c")])).is_err());
    assert!(validate_role_grants(&GrantsValue::List(vec![text(":VIEW")])).is_err());
}

#[test]
fn object_actions_must_be_known() {
    let g = GrantsValue::Object(obj(Some("sensor"), GrantActions::One("FLY".into())));
    let e = validate_role_grants(&g).unwrap_err();
    assert_eq!(
        e.message,
        "Invalid grant action 'FLY' in 'sensor:FLY'. Known actions: VIEW, CREATE, UPDATE, DELETE, UPSERT, EXECUTE, EXPORT, APPROVE, REJECT, DELEGATE, REVOKE."
    );
}

#[test]
fn string_grants_are_not_checked_against_known_actions() {
    assert!(validate_role_grants(&GrantsValue::List(vec![text("sensor:FLY")])).is_ok());
}

#[test]
fn object_faults_have_their_own_messages() {
    let e = validate_role_grants(&GrantsValue::Object(obj(None, GrantActions::Missing))).unwrap_err();
    assert_eq!(e.message, "Grant object missing 'domain' field");
    let e = validate_role_grants(&GrantsValue::Object(obj(Some("d"), GrantActions::Invalid))).unwrap_err();
    assert_eq!(e.message, "Grant 'actions' field must be an array or string");
    let e = validate_role_grants(&GrantsValue::Object(obj(Some("d"), GrantActions::List(vec![Some("VIEW".into()), None])))).unwrap_err();
    assert_eq!(e.message, "Grant action must be a string");
    let e = validate_role_grants(&GrantsValue::List(vec![GrantItem::Other])).unwrap_err();
    assert_eq!(e.message, "Grant item must be a string or object");
    let e = validate_role_grants(&GrantsValue::Other).unwrap_err();
    assert_eq!(e.message, "Grants field must be an array, string, or object");
}

#[test]
fn a_json_list_string_is_read_as_its_list() {
    let g = GrantsValue::Text {
        text: "[\"sensor:VIEW\"]".to_string(),
        as_list: Ok(vec![text("sensor:VIEW")]),
        as_object: None,
    };
    assert!(validate_role_grants(&g).is_ok());
    let g = GrantsValue::Text { text: "[oops".to_string(), as_list: Err("EOF while parsing".to_string()), as_object: None };
    assert_eq!(
        validate_role_grants(&g).unwrap_err().message,
        "Failed to parse grants JSON string: EOF while parsing"
    );
}

#[test]
fn an_object_written_as_text_is_read_as_the_object() {
    let item = GrantItem::Text {
        text: "{\"domain\":\"sensor\",\"actions\":\"BOGUS\"}".to_string(),
        as_object: Some(obj(Some("sensor"), GrantActions::One("BOGUS".into()))),
    };
    assert!(validate_role_grants(&GrantsValue::List(vec![item])).is_err());
    let single = GrantsValue::Text { text: "sensor:DELETE".to_string(), as_list: Err(String::new()), as_object: None };
    assert!(validate_role_grants(&single).is_ok());
}

#[test]
fn the_first_fault_is_reported() {
    let g = GrantsValue::List(vec![text("ok:VIEW"), text("bad one"), GrantItem::Other]);
    assert!(validate_role_grants(&g).unwrap_err().message.contains("bad one"));
}
