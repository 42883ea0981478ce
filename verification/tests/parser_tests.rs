//! Tests for the schema parser.

use jsonschema_luau::ir::{AdditionalProperties, Constraints, ObjectType, Property};
use jsonschema_luau::schema::{
    AdditionalProperties as SchemaAdditionalProperties, JsonValue, SchemaMap, SchemaObject,
    SchemaType, SingleType,
};
use jsonschema_luau::{ConversionError, IrConfig, JsonSchema, SchemaParser, Type};

fn typed(t: SingleType) -> SchemaObject {
    let mut o = SchemaObject::new();
    o.type_ = Some(SchemaType::Single(t));
    o
}

fn of_type(t: SingleType) -> JsonSchema {
    JsonSchema::Object(typed(t))
}

fn named(entries: Vec<(&str, JsonSchema)>) -> SchemaMap {
    let mut m = SchemaMap::new();
    for (k, v) in entries {
        m.insert(k.to_string(), v);
    }
    m
}

fn names(v: &[&str]) -> Vec<String> {
    v.iter().map(|s| s.to_string()).collect()
}

fn ref_to(path: &str) -> JsonSchema {
    let mut o = SchemaObject::new();
    o.ref_ = Some(path.to_string());
    JsonSchema::Object(o)
}

/// `{ "type": "object", "properties": { "name": string, "age": number }, "required": ["name"] }`
fn person_schema() -> JsonSchema {
    let mut o = typed(SingleType::Object);
    o.properties = Some(named(vec![
        ("name", of_type(SingleType::String)),
        ("age", of_type(SingleType::Number)),
    ]));
    o.required = Some(names(&["name"]));
    JsonSchema::Object(o)
}

#[test]
fn test_parse_simple_object() {
    let schema = person_schema();
    let mut parser = SchemaParser::new();
    let module = parser.parse(&schema).expect("Failed to convert to IR");

    assert!(module.root_type.is_some());
    let root = module.root_type.unwrap();
    assert_eq!(root.name, "Root");
}

#[test]
fn test_parse_array_type() {
    let mut o = typed(SingleType::Array);
    o.items = Some(Box::new(of_type(SingleType::String)));
    let schema = JsonSchema::Object(o);
    let mut parser = SchemaParser::new();
    let module = parser.parse(&schema).expect("Failed to convert to IR");

    assert!(module.root_type.is_some());
}

#[test]
fn test_parse_enum_type() {
    let mut o = typed(SingleType::String);
    o.enum_ = Some(vec![
        JsonValue::String("active".to_string()),
        JsonValue::String("pending".to_string()),
        JsonValue::String("deleted".to_string()),
    ]);
    let schema = JsonSchema::Object(o);
    let mut parser = SchemaParser::new();
    let module = parser.parse(&schema).expect("Failed to convert to IR");

    assert!(module.root_type.is_some());
    let root = module.root_type.unwrap();
    match root.ty {
        Type::EnumUnion(variants) => assert_eq!(variants.len(), 3),
        _ => panic!("Expected enum union type for enum"),
    }
}

fn address_schema() -> JsonSchema {
    let mut address = typed(SingleType::Object);
    address.properties = Some(named(vec![
        ("street", of_type(SingleType::String)),
        ("city", of_type(SingleType::String)),
    ]));
    JsonSchema::Object(address)
}

#[test]
fn test_parse_with_definitions() {
    let mut o = typed(SingleType::Object);
    o.properties = Some(named(vec![("address", ref_to("#/definitions/Address"))]));
    o.definitions = Some(named(vec![("Address", address_schema())]));
    let schema = JsonSchema::Object(o);
    let mut parser = SchemaParser::new();
    let module = parser.parse(&schema).expect("Failed to convert to IR");

    assert!(!module.definitions.is_empty());
}

#[test]
fn test_parse_with_defs() {
    let mut item = typed(SingleType::Object);
    item.properties = Some(named(vec![("id", of_type(SingleType::String))]));
    let mut o = typed(SingleType::Object);
    o.properties = Some(named(vec![("item", ref_to("#/$defs/Item"))]));
    o.defs = Some(named(vec![("Item", JsonSchema::Object(item))]));
    let schema = JsonSchema::Object(o);
    let mut parser = SchemaParser::new();
    let module = parser.parse(&schema).expect("Failed to convert to IR");

    assert!(!module.definitions.is_empty());
}

#[test]
fn test_parse_with_custom_type_name() {
    let mut o = typed(SingleType::Object);
    o.properties = Some(named(vec![("name", of_type(SingleType::String))]));
    let schema = JsonSchema::Object(o);
    let config = IrConfig::with_root_type_name("Person");
    let mut parser = SchemaParser::with_config(config);
    let module = parser.parse(&schema).expect("Failed to convert to IR");

    assert!(module.root_type.is_some());
    let root = module.root_type.unwrap();
    assert_eq!(root.name, "Person");
}

#[test]
fn test_parse_boolean_type() {
    let schema = of_type(SingleType::Boolean);
    let mut parser = SchemaParser::new();
    let module = parser.parse(&schema).expect("Failed to convert to IR");

    assert!(module.root_type.is_some());
    let root = module.root_type.unwrap();
    assert_eq!(root.ty, Type::Boolean);
}

#[test]
fn test_parse_null_type() {
    let schema = of_type(SingleType::Null);
    let mut parser = SchemaParser::new();
    let module = parser.parse(&schema).expect("Failed to convert to IR");

    assert!(module.root_type.is_some());
    let root = module.root_type.unwrap();
    assert_eq!(root.ty, Type::Nil);
}

#[test]
fn test_parse_any_of() {
    let mut o = SchemaObject::new();
    o.any_of = Some(vec![of_type(SingleType::String), of_type(SingleType::Number)]);
    let schema = JsonSchema::Object(o);
    let mut parser = SchemaParser::new();
    let module = parser.parse(&schema).expect("Failed to convert to IR");

    assert!(module.root_type.is_some());
    let root = module.root_type.unwrap();
    match root.ty {
        Type::Union(variants) => assert!(variants.len() >= 2),
        _ => panic!("Expected union type for anyOf"),
    }
}

#[test]
fn test_parse_with_description() {
    let mut name = typed(SingleType::String);
    name.description = Some("The user name".to_string());
    let mut o = typed(SingleType::Object);
    o.description = Some("A user object".to_string());
    o.properties = Some(named(vec![("name", JsonSchema::Object(name))]));
    let schema = JsonSchema::Object(o);
    let mut parser = SchemaParser::new();
    let module = parser.parse(&schema).expect("Failed to convert to IR");

    assert!(module.root_type.is_some());
    let root = module.root_type.unwrap();
    assert_eq!(root.description, Some("A user object".to_string()));
}

#[test]
fn test_parse_properties_sorted_with_required() {
    let module = SchemaParser::new().parse(&person_schema()).unwrap();
    let root = module.root_type.unwrap();
    let expected = ObjectType::new()
        .with_property(Property::optional("age", Type::Number))
        .with_property(Property::required("name", Type::String));
    assert_eq!(root.ty, Type::object(expected));
    assert!(root.exported);
    assert_eq!(root.label, None);
    assert!(module.definitions.is_empty());
}

#[test]
fn test_parse_reference_pascal_case() {
    let mut o = SchemaObject::new();
    o.properties = Some(named(vec![("profile", ref_to("#/definitions/user_profile"))]));
    o.definitions = Some(named(vec![("user_profile", of_type(SingleType::String))]));
    let module = SchemaParser::new().parse(&JsonSchema::Object(o)).unwrap();
    let root = module.root_type.unwrap();
    let expected = ObjectType::new()
        .with_property(Property::optional("profile", Type::reference("UserProfile")));
    assert_eq!(root.ty, Type::object(expected));
    assert_eq!(module.definitions.len(), 1);
    assert_eq!(module.definitions[0].name, "UserProfile");
    assert_eq!(module.definitions[0].ty, Type::String);
}

#[test]
fn test_parse_unsupported_ref() {
    let mut o = typed(SingleType::Object);
    o.properties = Some(named(vec![("x", ref_to("other.json#/x"))]));
    let result = SchemaParser::new().parse(&JsonSchema::Object(o));
    match result {
        Err(ConversionError::UnsupportedRef { ref_path }) => assert_eq!(ref_path, "other.json#/x"),
        other => panic!("Expected an unsupported $ref error, got {:?}", other),
    }
}

#[test]
fn test_parse_enum_of_numbers_and_mixed() {
    let mut numbers = SchemaObject::new();
    numbers.enum_ = Some(vec![
        JsonValue::Number("1".to_string()),
        JsonValue::Number("2.5".to_string()),
    ]);
    let module = SchemaParser::new().parse(&JsonSchema::Object(numbers)).unwrap();
    assert_eq!(module.root_type.unwrap().ty, Type::Number);

    let mut mixed = SchemaObject::new();
    mixed.enum_ = Some(vec![JsonValue::String("a".to_string()), JsonValue::Bool(true)]);
    let module = SchemaParser::new().parse(&JsonSchema::Object(mixed)).unwrap();
    assert_eq!(
        module.root_type.unwrap().ty,
        Type::EnumUnion(vec![Type::String, Type::Number, Type::Boolean, Type::Nil])
    );

    let mut single = SchemaObject::new();
    single.enum_ = Some(vec![JsonValue::String("only".to_string())]);
    let module = SchemaParser::new().parse(&JsonSchema::Object(single)).unwrap();
    assert_eq!(module.root_type.unwrap().ty, Type::StringLiteral("only".to_string()));
}

#[test]
fn test_parse_const_values() {
    let cases = vec![
        (JsonValue::String("x".to_string()), Type::StringLiteral("x".to_string())),
        (JsonValue::Number("3".to_string()), Type::Number),
        (JsonValue::Bool(false), Type::BooleanLiteral(false)),
        (JsonValue::Null, Type::Nil),
        (JsonValue::Array(Vec::new()), Type::Any),
    ];
    for (value, expected) in cases {
        let mut o = SchemaObject::new();
        o.const_ = Some(value);
        let module = SchemaParser::new().parse(&JsonSchema::Object(o)).unwrap();
        assert_eq!(module.root_type.unwrap().ty, expected);
    }
}

#[test]
fn test_parse_type_lists() {
    let mut o = SchemaObject::new();
    o.type_ = Some(SchemaType::Multiple(vec![
        SingleType::String,
        SingleType::Null,
        SingleType::Integer,
        SingleType::Object,
    ]));
    let module = SchemaParser::new().parse(&JsonSchema::Object(o)).unwrap();
    assert_eq!(
        module.root_type.unwrap().ty,
        Type::Union(vec![Type::String, Type::Nil, Type::Number, Type::map(Type::Any)])
    );

    let mut empty = SchemaObject::new();
    empty.type_ = Some(SchemaType::Multiple(Vec::new()));
    let module = SchemaParser::new().parse(&JsonSchema::Object(empty)).unwrap();
    assert_eq!(module.root_type.unwrap().ty, Type::Any);

    let module = SchemaParser::new().parse(&of_type(SingleType::Object)).unwrap();
    assert_eq!(module.root_type.unwrap().ty, Type::map(Type::Any));

    let mut closed = typed(SingleType::Object);
    closed.properties = Some(SchemaMap::new());
    closed.additional_properties = Some(SchemaAdditionalProperties::Boolean(false));
    let module = SchemaParser::new().parse(&JsonSchema::Object(closed)).unwrap();
    assert_eq!(
        module.root_type.unwrap().ty,
        Type::object(ObjectType::new().with_additional_properties(AdditionalProperties::none()))
    );

    let module = SchemaParser::new().parse(&JsonSchema::Object(SchemaObject::new())).unwrap();
    assert_eq!(module.root_type.unwrap().ty, Type::Any);
}

#[test]
fn test_parse_boolean_schemas() {
    let module = SchemaParser::new().parse(&JsonSchema::Boolean(true)).unwrap();
    assert_eq!(module.root_type.unwrap().ty, Type::Any);
    let module = SchemaParser::new().parse(&JsonSchema::Boolean(false)).unwrap();
    assert_eq!(module.root_type.unwrap().ty, Type::Never);
}

#[test]
fn test_parse_all_of_intersection_with_label() {
    let mut o = SchemaObject::new();
    o.all_of = Some(vec![ref_to("#/$defs/Base"), of_type(SingleType::String)]);
    o.defs = Some(named(vec![("Base", of_type(SingleType::String))]));
    let module = SchemaParser::new().parse(&JsonSchema::Object(o)).unwrap();
    let root = module.root_type.unwrap();
    assert_eq!(root.ty, Type::Intersection(vec![Type::reference("Base"), Type::String]));
    assert_eq!(root.label, Some("Intersection type (all conditions must be met)".to_string()));
    assert_eq!(module.definitions.len(), 1);
}

#[test]
fn test_parse_all_of_merged_into_parent() {
    let mut member = SchemaObject::new();
    member.properties = Some(named(vec![
        ("b", of_type(SingleType::Number)),
        ("a", of_type(SingleType::Boolean)),
    ]));
    member.required = Some(names(&["b"]));
    let mut o = SchemaObject::new();
    o.properties = Some(named(vec![("a", of_type(SingleType::String))]));
    o.all_of = Some(vec![
        JsonSchema::Object(member),
        ref_to("#/definitions/base_thing"),
        JsonSchema::Boolean(true),
    ]);
    o.definitions = Some(named(vec![("base_thing", of_type(SingleType::Boolean))]));
    o.description = Some("Merged".to_string());
    let module = SchemaParser::new().parse(&JsonSchema::Object(o)).unwrap();
    let root = module.root_type.unwrap();
    let merged = ObjectType::new()
        .with_property(Property::optional("a", Type::Boolean))
        .with_property(Property::required("b", Type::Number));
    assert_eq!(
        root.ty,
        Type::Intersection(vec![Type::object(merged), Type::reference("BaseThing")])
    );
    assert_eq!(root.label, None);
    assert_eq!(root.description, Some("Merged".to_string()));
    assert_eq!(module.definitions.len(), 1);
    assert_eq!(module.definitions[0].name, "BaseThing");
}

#[test]
fn test_parse_all_of_with_only_required() {
    let mut member = SchemaObject::new();
    member.properties = Some(named(vec![("x", of_type(SingleType::String))]));
    let mut o = SchemaObject::new();
    o.required = Some(names(&["x"]));
    o.all_of = Some(vec![JsonSchema::Object(member)]);
    let module = SchemaParser::new().parse(&JsonSchema::Object(o)).unwrap();
    let expected = ObjectType::new().with_property(Property::required("x", Type::String));
    assert_eq!(module.root_type.unwrap().ty, Type::object(expected));

    let mut bare = SchemaObject::new();
    bare.required = Some(names(&["x"]));
    bare.all_of = Some(vec![JsonSchema::Boolean(true)]);
    let module = SchemaParser::new().parse(&JsonSchema::Object(bare)).unwrap();
    assert_eq!(module.root_type.unwrap().ty, Type::Any);
}

#[test]
fn test_parse_all_of_bad_ref_reported_first() {
    let mut member = SchemaObject::new();
    member.properties = Some(named(vec![("y", ref_to("remote#/y"))]));
    let mut o = SchemaObject::new();
    o.properties = Some(named(vec![("x", of_type(SingleType::String))]));
    o.all_of = Some(vec![JsonSchema::Object(member), ref_to("elsewhere")]);
    match SchemaParser::new().parse(&JsonSchema::Object(o)) {
        Err(ConversionError::UnsupportedRef { ref_path }) => assert_eq!(ref_path, "elsewhere"),
        other => panic!("Expected an unsupported $ref error, got {:?}", other),
    }
}

#[test]
fn test_parse_one_of_label() {
    let mut o = SchemaObject::new();
    o.one_of = Some(vec![of_type(SingleType::Integer), of_type(SingleType::Null)]);
    let module = SchemaParser::new().parse(&JsonSchema::Object(o)).unwrap();
    let root = module.root_type.unwrap();
    assert_eq!(root.ty, Type::Union(vec![Type::Number, Type::Nil]));
    assert_eq!(root.label, Some("Union type (exactly one of these types)".to_string()));
}

#[test]
fn test_parse_additional_properties_and_constraints() {
    let mut values = typed(SingleType::Number);
    values.minimum = Some("1".to_string());
    let mut scores = typed(SingleType::Object);
    scores.additional_properties = Some(SchemaAdditionalProperties::Schema(Box::new(
        JsonSchema::Object(values),
    )));
    scores.max_properties = Some(3);
    let mut tags = typed(SingleType::Array);
    tags.items = Some(Box::new(of_type(SingleType::String)));
    tags.min_items = Some(1);
    tags.unique_items = Some(false);
    let mut o = typed(SingleType::Object);
    o.properties = Some(named(vec![
        ("scores", JsonSchema::Object(scores)),
        ("tags", JsonSchema::Object(tags)),
    ]));
    o.additional_properties = Some(SchemaAdditionalProperties::Boolean(false));
    let module = SchemaParser::new().parse(&JsonSchema::Object(o)).unwrap();
    let scores_type = Type::map(Type::Number);
    let expected = ObjectType::new()
        .with_property(
            Property::optional("scores", scores_type)
                .with_constraints(Constraints::new().with_max_properties(3))
                .with_extra_constraints(Constraints::new().with_minimum("1")),
        )
        .with_property(
            Property::optional("tags", Type::array(Type::String))
                .with_constraints(Constraints::new().with_min_items(1)),
        )
        .with_additional_properties(AdditionalProperties::none());
    assert_eq!(module.root_type.unwrap().ty, Type::object(expected));
}

#[test]
fn test_parse_without_constraints() {
    let mut age = typed(SingleType::Integer);
    age.minimum = Some("0".to_string());
    let mut o = typed(SingleType::Object);
    o.properties = Some(named(vec![("age", JsonSchema::Object(age))]));
    let config = IrConfig {
        root_type_name: "Root".to_string(),
        include_constraints: false,
        include_descriptions: true,
    };
    let module = SchemaParser::with_config(config).parse(&JsonSchema::Object(o)).unwrap();
    let expected = ObjectType::new().with_property(Property::optional("age", Type::Number));
    assert_eq!(module.root_type.unwrap().ty, Type::object(expected));
}

#[test]
fn test_parse_definitions_sorted_skipping_known_names() {
    let mut o = SchemaObject::new();
    o.definitions = Some(named(vec![
        ("b_item", of_type(SingleType::Number)),
        ("a", of_type(SingleType::String)),
        ("BItem", of_type(SingleType::Boolean)),
        ("root", of_type(SingleType::Null)),
    ]));
    let module = SchemaParser::new().parse(&JsonSchema::Object(o)).unwrap();
    let found: Vec<(String, Type)> = module
        .definitions
        .into_iter()
        .map(|d| (d.name, d.ty))
        .collect();
    assert_eq!(
        found,
        vec![("BItem".to_string(), Type::Boolean), ("A".to_string(), Type::String)]
    );
}

#[test]
fn test_parse_defs_replace_definitions() {
    let mut o = SchemaObject::new();
    o.definitions = Some(named(vec![("X", of_type(SingleType::String))]));
    o.defs = Some(named(vec![("X", of_type(SingleType::Number))]));
    let module = SchemaParser::new().parse(&JsonSchema::Object(o)).unwrap();
    assert_eq!(module.definitions.len(), 1);
    assert_eq!(module.definitions[0].ty, Type::Number);
}

#[test]
fn test_parse_twice_with_one_parser() {
    let mut o = SchemaObject::new();
    o.definitions = Some(named(vec![("Thing", of_type(SingleType::String))]));
    let schema = JsonSchema::Object(o);
    let mut parser = SchemaParser::new();
    let first = parser.parse(&schema).unwrap();
    assert_eq!(first.definitions.len(), 1);
    let second = parser.parse(&schema).unwrap();
    assert_eq!(second.root_type.unwrap().name, "Root");
    assert!(second.definitions.is_empty());
}

#[test]
fn test_parse_error_in_definition() {
    let mut o = typed(SingleType::String);
    o.definitions = Some(named(vec![("Bad", ref_to("http://example.com/s.json"))]));
    let result = SchemaParser::default().parse(&JsonSchema::Object(o));
    assert!(matches!(result, Err(ConversionError::UnsupportedRef { .. })));
}

#[test]
fn test_parser_public_steps() {
    let parser = SchemaParser::new();
    let def = parser.type_def_of(&JsonSchema::Boolean(false), "Nothing").unwrap();
    assert_eq!(def.name, "Nothing");
    assert_eq!(def.ty, Type::Never);
    assert!(def.exported);

    assert_eq!(
        SchemaParser::get_single_types(&SchemaType::Multiple(vec![SingleType::Array, SingleType::Null])),
        vec![SingleType::Array, SingleType::Null]
    );
    assert_eq!(
        SchemaParser::get_single_types(&SchemaType::Single(SingleType::Integer)),
        vec![SingleType::Integer]
    );

    let mut any_of = SchemaObject::new();
    any_of.any_of = Some(Vec::new());
    assert_eq!(SchemaParser::composition_label(&any_of), Some("Union type (any of these types)"));
    assert_eq!(SchemaParser::composition_label(&SchemaObject::new()), None);

    let mut with_defs = SchemaObject::new();
    with_defs.definitions = Some(named(vec![("Z", JsonSchema::Boolean(true))]));
    let mut parser = SchemaParser::new();
    parser.extract_definitions(&JsonSchema::Object(with_defs));
    let module = parser.parse(&JsonSchema::Boolean(true)).unwrap();
    assert_eq!(module.definitions.len(), 1);
    assert_eq!(module.definitions[0].name, "Z");
    assert_eq!(module.definitions[0].ty, Type::Any);
}

#[test]
fn test_parse_without_descriptions() {
    let mut name = typed(SingleType::String);
    name.description = Some("The user name".to_string());
    let mut o = typed(SingleType::Object);
    o.description = Some("A user object".to_string());
    o.properties = Some(named(vec![("name", JsonSchema::Object(name))]));
    let config = IrConfig {
        root_type_name: "Root".to_string(),
        include_constraints: true,
        include_descriptions: false,
    };
    let module = SchemaParser::with_config(config).parse(&JsonSchema::Object(o)).unwrap();
    let root = module.root_type.unwrap();
    assert_eq!(root.description, None);
    let expected = ObjectType::new().with_property(Property::optional("name", Type::String));
    assert_eq!(root.ty, Type::object(expected));
}

#[test]
fn test_parse_root_constraints() {
    let mut o = typed(SingleType::Array);
    o.items = Some(Box::new(of_type(SingleType::String)));
    o.min_items = Some(1);
    o.max_items = Some(10);
    let schema = JsonSchema::Object(o);
    let module = SchemaParser::new().parse(&schema).unwrap();
    let root = module.root_type.unwrap();
    assert_eq!(root.constraints, Constraints::new().with_min_items(1).with_max_items(10));
    assert_eq!(root.ty, Type::array(Type::String));

    let config = IrConfig {
        root_type_name: "Root".to_string(),
        include_constraints: false,
        include_descriptions: true,
    };
    let module = SchemaParser::with_config(config).parse(&schema).unwrap();
    assert_eq!(module.root_type.unwrap().constraints, Constraints::new());
}
