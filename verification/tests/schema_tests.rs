//! Tests for the schema document model.

use jsonschema_luau::schema::{
    AdditionalProperties, JsonValue, SchemaMap, SchemaObject, SchemaType, SingleType,
};
use jsonschema_luau::JsonSchema;

#[test]
fn test_schema_map_keeps_names_ascending() {
    let mut m = SchemaMap::new();
    assert_eq!(m.len(), 0);
    m.insert("zeta".to_string(), JsonSchema::Boolean(true));
    m.insert("Alpha".to_string(), JsonSchema::Boolean(false));
    m.insert("beta".to_string(), JsonSchema::Boolean(true));
    assert_eq!(m.len(), 3);
    assert_eq!(m.names(), vec!["Alpha".to_string(), "beta".to_string(), "zeta".to_string()]);
}

#[test]
fn test_schema_map_insert_replaces() {
    let mut m = SchemaMap::new();
    m.insert("a".to_string(), JsonSchema::Boolean(true));
    m.insert("a".to_string(), JsonSchema::Boolean(false));
    assert_eq!(m.len(), 1);
    assert_eq!(format!("{:?}", m.deep_clone()), format!("{:?}", m));
    assert!(format!("{:?}", m).contains("Boolean(false)"));
}

#[test]
fn test_deep_clone_copies_everything() {
    let mut o = SchemaObject::new();
    o.ref_ = Some("#/$defs/A".to_string());
    o.enum_ = Some(vec![JsonValue::Object(vec![(
        "k".to_string(),
        JsonValue::Array(vec![JsonValue::Null, JsonValue::Number("1.5".to_string())]),
    )])]);
    o.type_ = Some(SchemaType::Multiple(vec![SingleType::String, SingleType::Null]));
    o.required = Some(vec!["k".to_string()]);
    o.additional_properties = Some(AdditionalProperties::Schema(Box::new(JsonSchema::Boolean(true))));
    o.items = Some(Box::new(JsonSchema::Boolean(false)));
    o.any_of = Some(vec![JsonSchema::Boolean(true)]);
    o.minimum = Some("2".to_string());
    o.max_items = Some(4);
    o.unique_items = Some(true);
    let schema = JsonSchema::Object(o);
    assert_eq!(format!("{:?}", schema.deep_clone()), format!("{:?}", schema));
}
