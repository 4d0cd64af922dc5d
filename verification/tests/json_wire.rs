use uc_cli::json_wire::{flatten_payload_wrapped_wire_shape, JsonNode};

fn obj(entries: Vec<(&str, JsonNode)>) -> JsonNode {
    JsonNode::Object(entries.into_iter().map(|(k, v)| (k.to_string(), v)).collect())
}

fn st(v: &str) -> JsonNode {
    JsonNode::Str(v.to_string())
}

#[test]
fn payload_members_move_to_the_root_except_type() {
    let mut v = obj(vec![
        ("type", st("build")),
        ("payload", obj(vec![("type", st("other")), ("manifest_path", st("/w/Scarb.toml")), ("offline", JsonNode::Bool(true))])),
        ("offline", JsonNode::Bool(false)),
    ]);
    flatten_payload_wrapped_wire_shape(&mut v);
    assert_eq!(
        v,
        obj(vec![("type", st("build")), ("offline", JsonNode::Bool(true)), ("manifest_path", st("/w/Scarb.toml"))])
    );
}

#[test]
fn non_object_payloads_and_values_stay() {
    let mut v = obj(vec![("payload", JsonNode::Number("3".to_string())), ("type", st("ping"))]);
    flatten_payload_wrapped_wire_shape(&mut v);
    assert_eq!(v, obj(vec![("type", st("ping")), ("payload", JsonNode::Number("3".to_string()))]));
    let mut flat = obj(vec![("type", st("ping"))]);
    flatten_payload_wrapped_wire_shape(&mut flat);
    assert_eq!(flat, obj(vec![("type", st("ping"))]));
    let mut arr = JsonNode::Array(vec![JsonNode::Null]);
    flatten_payload_wrapped_wire_shape(&mut arr);
    assert_eq!(arr, JsonNode::Array(vec![JsonNode::Null]));
}
