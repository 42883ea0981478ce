//! Tests for the conversion functions.

use jsonschema_luau::schema::{JsonValue, SchemaMap, SchemaObject, SchemaType, SingleType};
use jsonschema_luau::{convert_parsed_schema, convert_parsed_schema_with_name, ConversionError, JsonSchema};

fn object_of(t: SingleType) -> SchemaObject {
    let mut o = SchemaObject::new();
    o.type_ = Some(SchemaType::Single(t));
    o
}

fn schema_of(t: SingleType) -> JsonSchema {
    JsonSchema::Object(object_of(t))
}

fn map_from(entries: Vec<(&str, JsonSchema)>) -> SchemaMap {
    let mut m = SchemaMap::new();
    for (k, v) in entries {
        m.insert(k.to_string(), v);
    }
    m
}

fn reference_to(path: &str) -> JsonSchema {
    let mut o = SchemaObject::new();
    o.ref_ = Some(path.to_string());
    JsonSchema::Object(o)
}

#[test]
fn test_convert_simple_schema() {
    let mut o = object_of(SingleType::Object);
    o.properties = Some(map_from(vec![
        ("name", schema_of(SingleType::String)),
        ("age", schema_of(SingleType::Number)),
    ]));
    o.required = Some(vec!["name".to_string()]);

    let result = convert_parsed_schema(&JsonSchema::Object(o)).expect("Conversion failed");
    assert!(result.contains("export type Root"));
    assert!(result.contains("name: string"));
    assert!(result.contains("age: number?"));
}

#[test]
fn test_convert_with_custom_name() {
    let mut o = object_of(SingleType::Object);
    o.properties = Some(map_from(vec![("email", schema_of(SingleType::String))]));

    let result =
        convert_parsed_schema_with_name(&JsonSchema::Object(o), "User").expect("Conversion failed");
    assert!(result.contains("export type User"));
}

#[test]
fn test_convert_enum() {
    let mut o = object_of(SingleType::String);
    o.enum_ = Some(vec![
        JsonValue::String("active".to_string()),
        JsonValue::String("pending".to_string()),
        JsonValue::String("deleted".to_string()),
    ]);

    let result = convert_parsed_schema(&JsonSchema::Object(o)).expect("Conversion failed");
    assert!(result.contains("\"active\""));
    assert!(result.contains("\"pending\""));
    assert!(result.contains("\"deleted\""));
}

#[test]
fn test_convert_array() {
    let mut o = object_of(SingleType::Array);
    o.items = Some(Box::new(schema_of(SingleType::Number)));

    let result = convert_parsed_schema(&JsonSchema::Object(o)).expect("Conversion failed");
    assert!(result.contains("{ number }"));
}

#[test]
fn test_convert_boolean() {
    let result = convert_parsed_schema(&schema_of(SingleType::Boolean)).expect("Conversion failed");
    assert!(result.contains("export type Root = boolean"));
}

#[test]
fn test_convert_null() {
    let result = convert_parsed_schema(&schema_of(SingleType::Null)).expect("Conversion failed");
    assert!(result.contains("export type Root = nil"));
}

#[test]
fn test_convert_any_of() {
    let mut o = SchemaObject::new();
    o.any_of = Some(vec![schema_of(SingleType::String), schema_of(SingleType::Number)]);

    let result = convert_parsed_schema(&JsonSchema::Object(o)).expect("Conversion failed");
    assert!(result.contains("string"));
    assert!(result.contains("number"));
}

#[test]
fn test_convert_with_description() {
    let mut name = object_of(SingleType::String);
    name.description = Some("The user name".to_string());
    let mut o = object_of(SingleType::Object);
    o.description = Some("A user object".to_string());
    o.properties = Some(map_from(vec![("name", JsonSchema::Object(name))]));

    let result = convert_parsed_schema(&JsonSchema::Object(o)).expect("Conversion failed");
    assert!(result.contains("--- A user object"));
}

#[test]
fn test_convert_invalid_json() {
    let invalid_json = r#"{ "type": "object", "properties": { "name": }"#;
    let err = serde_json::from_str::<serde_json::Value>(invalid_json).unwrap_err();
    assert_eq!(err.line(), 1);
    let error = ConversionError::json_parse_at(&err.to_string(), err.line(), err.column());
    assert_eq!(error.message(), format!("Failed to parse JSON: {}", err));
    match error {
        ConversionError::JsonParse { message, location } => {
            assert_eq!(message, err.to_string());
            assert_eq!(location, Some(format!("line 1, column {}", err.column())));
        }
        other => panic!("Expected a JSON parse error, got {:?}", other),
    }
}

#[test]
fn test_convert_definitions() {
    let mut address = object_of(SingleType::Object);
    address.properties = Some(map_from(vec![
        ("street", schema_of(SingleType::String)),
        ("city", schema_of(SingleType::String)),
    ]));
    let mut o = object_of(SingleType::Object);
    o.properties = Some(map_from(vec![("address", reference_to("#/definitions/Address"))]));
    o.definitions = Some(map_from(vec![("Address", JsonSchema::Object(address))]));

    let result = convert_parsed_schema(&JsonSchema::Object(o)).expect("Conversion failed");
    assert!(result.contains("export type Address"));
    assert!(result.contains("street: string"));
    assert!(result.contains("city: string"));
}

#[test]
fn test_convert_defs() {
    let mut item = object_of(SingleType::Object);
    item.properties = Some(map_from(vec![("id", schema_of(SingleType::String))]));
    let mut o = object_of(SingleType::Object);
    o.properties = Some(map_from(vec![("item", reference_to("#/$defs/Item"))]));
    o.defs = Some(map_from(vec![("Item", JsonSchema::Object(item))]));

    let result = convert_parsed_schema(&JsonSchema::Object(o)).expect("Conversion failed");
    assert!(result.contains("export type Item"));
    assert!(result.contains("id: string"));
}

#[test]
fn test_library_malformed_json() {
    let malformed_json = r#"{ "type": "object", "properties": { "name": }"#;
    let err = serde_json::from_str::<serde_json::Value>(malformed_json).unwrap_err();
    let error = ConversionError::json_parse_at(&err.to_string(), err.line(), err.column());
    match error {
        ConversionError::JsonParse { message, location } => {
            assert_eq!(message, err.to_string());
            assert_eq!(
                location,
                Some(format!("line {}, column {}", err.line(), err.column())),
                "Should report where the malformed JSON failed"
            );
        }
        other => panic!("Should return a JSON parse error for malformed JSON, got {:?}", other),
    }
}

#[test]
fn test_convert_readme_example_exact() {
    let mut age = object_of(SingleType::Number);
    age.minimum = Some("0".to_string());
    age.maximum = Some("120".to_string());
    let mut o = object_of(SingleType::Object);
    o.properties = Some(map_from(vec![
        ("name", schema_of(SingleType::String)),
        ("age", JsonSchema::Object(age)),
    ]));
    o.required = Some(vec!["name".to_string()]);
    let result = convert_parsed_schema(&JsonSchema::Object(o)).unwrap();
    assert_eq!(
        result,
        "export type Root = {\n    --- @minimum 0\n    --- @maximum 120\n    age: number?,\n    name: string,\n}\n\nreturn {}\n"
    );
}

#[test]
fn test_convert_definitions_exact() {
    let mut person = object_of(SingleType::Object);
    person.properties = Some(map_from(vec![
        ("name", schema_of(SingleType::String)),
        ("age", schema_of(SingleType::Number)),
    ]));
    let mut o = object_of(SingleType::Object);
    o.properties = Some(map_from(vec![("person", reference_to("#/$defs/Person"))]));
    o.defs = Some(map_from(vec![("Person", JsonSchema::Object(person))]));
    let result = convert_parsed_schema(&JsonSchema::Object(o)).unwrap();
    assert_eq!(
        result,
        "export type Root = {\n    person: Person?,\n}\n\nexport type Person = {\n    age: number?,\n    name: string?,\n}\n\nreturn {}\n"
    );
}

#[test]
fn test_convert_custom_name_is_pascal_cased() {
    let result = convert_parsed_schema_with_name(&schema_of(SingleType::String), "my_type").unwrap();
    assert_eq!(result, "export type MyType = string\n\nreturn {}\n");
}

#[test]
fn test_convert_error_is_returned() {
    let result = convert_parsed_schema(&reference_to("https://example.com/x.json"));
    match result {
        Err(e) => assert_eq!(
            e.message(),
            "Unsupported $ref format: 'https://example.com/x.json'. Only local references (#/definitions/... or #/$defs/...) are supported."
        ),
        Ok(text) => panic!("Expected an error, got {}", text),
    }
}

#[test]
fn test_convert_array_bounds_at_root() {
    let mut o = object_of(SingleType::Array);
    o.items = Some(Box::new(schema_of(SingleType::String)));
    o.min_items = Some(1);
    o.max_items = Some(10);
    let result = convert_parsed_schema(&JsonSchema::Object(o)).unwrap();
    assert_eq!(
        result,
        "--- @minItems 1\n--- @maxItems 10\nexport type Root = { string }\n\nreturn {}\n"
    );
}

#[test]
fn test_convert_object_without_properties() {
    let result = convert_parsed_schema(&schema_of(SingleType::Object)).unwrap();
    assert_eq!(result, "export type Root = { [string]: any }\n\nreturn {}\n");
}
