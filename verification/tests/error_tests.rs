//! Tests for the conversion errors.

use jsonschema_luau::ConversionError;

#[test]
fn test_error_messages() {
    assert_eq!(ConversionError::json_parse("bad").message(), "Failed to parse JSON: bad");
    assert_eq!(
        ConversionError::json_parse_with_location("bad", "line 1, column 2").message(),
        "Failed to parse JSON: bad"
    );
    assert_eq!(ConversionError::schema_parse("no").message(), "Invalid JSON Schema: no");
    assert_eq!(
        ConversionError::schema_parse_with_path("no", "#/a").message(),
        "Invalid JSON Schema: no"
    );
    assert_eq!(
        ConversionError::unsupported_feature("if").message(),
        "Unsupported schema feature: if"
    );
    assert_eq!(
        ConversionError::unsupported_feature_with_context("if", "root").message(),
        "Unsupported schema feature: if"
    );
    assert_eq!(
        ConversionError::unsupported_ref("x.json").message(),
        "Unsupported $ref format: 'x.json'. Only local references (#/definitions/... or #/$defs/...) are supported."
    );
    assert_eq!(
        ConversionError::type_resolution("loop").message(),
        "Failed to resolve type: loop"
    );
    assert_eq!(ConversionError::io("denied").message(), "IO error: denied");
    assert_eq!(ConversionError::other("plain").message(), "plain");
}

#[test]
fn test_error_fields() {
    match ConversionError::json_parse_with_location("bad", "here") {
        ConversionError::JsonParse { message, location } => {
            assert_eq!(message, "bad");
            assert_eq!(location, Some("here".to_string()));
        }
        other => panic!("unexpected {:?}", other),
    }
    match ConversionError::schema_parse_with_path("m", "p") {
        ConversionError::SchemaParse { message, path } => {
            assert_eq!(message, "m");
            assert_eq!(path, Some("p".to_string()));
        }
        other => panic!("unexpected {:?}", other),
    }
    match ConversionError::unsupported_feature("f") {
        ConversionError::UnsupportedFeature { feature, context } => {
            assert_eq!(feature, "f");
            assert_eq!(context, None);
        }
        other => panic!("unexpected {:?}", other),
    }
    match ConversionError::unsupported_feature_with_context("f", "c") {
        ConversionError::UnsupportedFeature { context, .. } => {
            assert_eq!(context, Some("c".to_string()))
        }
        other => panic!("unexpected {:?}", other),
    }
    match ConversionError::type_resolution("t") {
        ConversionError::TypeResolution { message } => assert_eq!(message, "t"),
        other => panic!("unexpected {:?}", other),
    }
    assert!(matches!(ConversionError::io("x"), ConversionError::Io(m) if m == "x"));
    assert!(matches!(ConversionError::other("y"), ConversionError::Other(m) if m == "y"));
    assert!(matches!(ConversionError::json_parse("z"), ConversionError::JsonParse { location: None, .. }));
}

#[test]
fn test_json_parse_at_location() {
    match ConversionError::json_parse_at("oops", 3, 14) {
        ConversionError::JsonParse { message, location } => {
            assert_eq!(message, "oops");
            assert_eq!(location, Some("line 3, column 14".to_string()));
        }
        other => panic!("unexpected {:?}", other),
    }
}

#[test]
fn test_json_parse_at_from_reader_error() {
    let text = "{\n  \"type\": \n}";
    let err = serde_json::from_str::<serde_json::Value>(text).unwrap_err();
    let expected_location = format!("line {}, column {}", err.line(), err.column());
    let expected_message = err.to_string();
    match ConversionError::json_parse_at(&err.to_string(), err.line(), err.column()) {
        ConversionError::JsonParse { message, location } => {
            assert_eq!(message, expected_message);
            assert_eq!(location, Some(expected_location));
            assert_eq!(err.line(), 3);
        }
        other => panic!("unexpected {:?}", other),
    }
}
