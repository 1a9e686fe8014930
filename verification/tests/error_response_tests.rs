use metri_engine::codice::{AttrType, AttributeDescriptor, EntityModel};
use metri_engine::iop::error_response::{correlation_id, sanitize_context};

fn attr(name: &str, sensitive: bool) -> AttributeDescriptor {
    AttributeDescriptor {
        name: name.to_string(),
        attr_type: AttrType::String,
        required: false,
        indexed: false,
        sensitive,
    }
}

#[test]
fn correlation_takes_the_first_eight_characters() {
    assert_eq!(correlation_id("0123456789abcdef"), "REQ-01234567");
    assert_eq!(correlation_id("abc"), "REQ-abc");
    assert_eq!(correlation_id(""), "REQ-");
}

#[test]
fn sensitive_fields_are_redacted_from_the_context() {
    let model = EntityModel {
        entity: "user".to_string(),
        attributes: vec![attr("password", true), attr("name", false)],
    };
    let entries = vec![("password".to_string(), 1), ("name".to_string(), 2), ("other".to_string(), 3)];
    let out = sanitize_context(Some(&model), entries.clone());
    assert_eq!(
        out,
        vec![("password".to_string(), None), ("name".to_string(), Some(2)), ("other".to_string(), Some(3))]
    );
    let out = sanitize_context(None, entries);
    assert_eq!(out[0], ("password".to_string(), Some(1)));
}
