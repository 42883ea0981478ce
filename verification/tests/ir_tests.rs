//! Tests for IR (Intermediate Representation) types.

use jsonschema_luau::ir::{AdditionalProperties, Constraints, ObjectType, Property};
use jsonschema_luau::{IrConfig, Type, TypeDef, TypeModule};

#[test]
fn test_ir_config_default() {
    let config = IrConfig::default();
    assert_eq!(config.root_type_name, "Root");
    assert!(config.include_constraints);
    assert!(config.include_descriptions);
}

#[test]
fn test_ir_config_with_root_type_name() {
    let config = IrConfig::with_root_type_name("Person");
    assert_eq!(config.root_type_name, "Person");
}

#[test]
fn test_type_module_new() {
    let module = TypeModule::new();
    assert!(module.root_type.is_none());
    assert!(module.definitions.is_empty());
}

#[test]
fn test_type_def_new() {
    let type_def = TypeDef::new("TestType", Type::String);
    assert_eq!(type_def.name, "TestType");
    assert!(type_def.exported);
    assert!(type_def.description.is_none());
}

#[test]
fn test_type_def_with_description() {
    let type_def = TypeDef::new("TestType", Type::Number).with_description("A test type");
    assert_eq!(type_def.description, Some("A test type".to_string()));
}

#[test]
fn test_type_def_with_export() {
    let type_def = TypeDef::new("TestType", Type::Boolean).with_export(false);
    assert!(!type_def.exported);
}

#[test]
fn test_type_variants() {
    assert_eq!(Type::any(), Type::Any);
    assert_eq!(Type::never(), Type::Never);
    assert_eq!(Type::nil(), Type::Nil);
    assert_eq!(Type::boolean(), Type::Boolean);
    assert_eq!(Type::number(), Type::Number);
    assert_eq!(Type::string(), Type::String);
}

#[test]
fn test_type_literal_variants() {
    let str_lit = Type::StringLiteral("test".to_string());
    let num_lit = Type::NumberLiteral("42".to_string());
    let bool_lit = Type::BooleanLiteral(true);

    match str_lit {
        Type::StringLiteral(s) => assert_eq!(s, "test"),
        _ => panic!("Expected StringLiteral"),
    }

    match num_lit {
        Type::NumberLiteral(n) => assert_eq!(n, "42"),
        _ => panic!("Expected NumberLiteral"),
    }

    match bool_lit {
        Type::BooleanLiteral(b) => assert!(b),
        _ => panic!("Expected BooleanLiteral"),
    }
}

#[test]
fn test_type_array() {
    let arr_type = Type::array(Type::String);
    match arr_type {
        Type::Array(inner) => assert_eq!(*inner, Type::String),
        _ => panic!("Expected Array type"),
    }
}

#[test]
fn test_type_union() {
    let union = Type::union(vec![Type::String, Type::Number]);
    match union {
        Type::Union(variants) => {
            assert_eq!(variants.len(), 2);
            assert!(variants.contains(&Type::String));
            assert!(variants.contains(&Type::Number));
        }
        _ => panic!("Expected Union type"),
    }
}

#[test]
fn test_type_reference() {
    let ref_type = Type::reference("SomeType");
    match ref_type {
        Type::Reference(name) => assert_eq!(name, "SomeType"),
        _ => panic!("Expected Reference type"),
    }
}

#[test]
fn test_union_keeps_source_order() {
    let union = Type::union(vec![Type::String, Type::Number, Type::Boolean]);
    assert_eq!(union, Type::Union(vec![Type::String, Type::Number, Type::Boolean]));
}

#[test]
fn test_union_flattens_and_dedups() {
    let inner = Type::union(vec![Type::Number, Type::String]);
    let enum_inner = Type::enum_union(vec![
        Type::string_literal("a"),
        Type::string_literal("b"),
    ]);
    let union = Type::union(vec![Type::String, inner, Type::Nil, enum_inner, Type::Nil]);
    assert_eq!(
        union,
        Type::Union(vec![
            Type::String,
            Type::Number,
            Type::Nil,
            Type::StringLiteral("a".to_string()),
            Type::StringLiteral("b".to_string()),
        ])
    );
}

#[test]
fn test_union_idempotent_on_its_result() {
    let once = Type::union(vec![Type::String, Type::Nil, Type::String]);
    let twice = Type::union(vec![Type::union(vec![Type::String, Type::Nil, Type::String])]);
    assert_eq!(once, twice);
    assert_eq!(once, Type::Union(vec![Type::String, Type::Nil]));
}

#[test]
fn test_union_of_one_and_none() {
    assert_eq!(Type::union(vec![Type::Number]), Type::Number);
    assert_eq!(Type::union(vec![Type::Number, Type::Number]), Type::Number);
    assert_eq!(Type::union(Vec::new()), Type::Never);
}

#[test]
fn test_enum_union_shapes() {
    assert_eq!(Type::enum_union(Vec::new()), Type::Never);
    assert_eq!(
        Type::enum_union(vec![Type::string_literal("x")]),
        Type::StringLiteral("x".to_string())
    );
    let two = Type::enum_union(vec![Type::string_literal("x"), Type::string_literal("x")]);
    assert_eq!(
        two,
        Type::EnumUnion(vec![
            Type::StringLiteral("x".to_string()),
            Type::StringLiteral("x".to_string()),
        ])
    );
}

#[test]
fn test_intersection_flattens() {
    let inner = Type::intersection(vec![Type::reference("A"), Type::reference("B")]);
    let outer = Type::intersection(vec![inner, Type::reference("C")]);
    assert_eq!(
        outer,
        Type::Intersection(vec![
            Type::Reference("A".to_string()),
            Type::Reference("B".to_string()),
            Type::Reference("C".to_string()),
        ])
    );
    assert_eq!(Type::intersection(Vec::new()), Type::Any);
    assert_eq!(Type::intersection(vec![Type::Nil]), Type::Nil);
}

#[test]
fn test_is_primitive_and_needs_parens() {
    assert!(Type::Number.is_primitive());
    assert!(Type::number_literal("1.5").is_primitive());
    assert!(!Type::array(Type::Number).is_primitive());
    assert!(!Type::reference("X").is_primitive());
    assert!(Type::Union(vec![Type::String, Type::Nil]).needs_parens());
    assert!(Type::Intersection(vec![Type::Any, Type::Nil]).needs_parens());
    assert!(!Type::EnumUnion(vec![Type::String, Type::Nil]).needs_parens());
    assert!(!Type::map(Type::Any).needs_parens());
}

#[test]
fn test_same_compares_structure() {
    let a = Type::array(Type::union(vec![Type::String, Type::Nil]));
    let b = Type::array(Type::union(vec![Type::String, Type::Nil]));
    let c = Type::array(Type::union(vec![Type::Nil, Type::String]));
    assert!(a.same(&b));
    assert!(!a.same(&c));
    let o1 = Type::object(ObjectType::new().with_property(Property::required("x", Type::Number)));
    let o2 = Type::object(ObjectType::new().with_property(Property::optional("x", Type::Number)));
    assert!(!o1.same(&o2));
    let o3 = Type::object(
        ObjectType::new().with_property(Property::optional("x", Type::Number).make_optional()),
    );
    assert!(o2.same(&o3));
}

#[test]
fn test_object_builders() {
    let object = ObjectType::new();
    assert!(object.is_empty());
    let object = object
        .with_property(Property::required("id", Type::String).with_description("The id"))
        .with_additional_properties(AdditionalProperties::none());
    assert!(!object.is_empty());
    assert_eq!(object.properties.len(), 1);
    assert_eq!(object.properties[0].name, "id");
    assert!(!object.properties[0].optional);
    assert_eq!(object.properties[0].description, Some("The id".to_string()));
    assert_eq!(object.additional_properties, Some(AdditionalProperties::False));
    assert_eq!(ObjectType::default(), ObjectType::new());
}

#[test]
fn test_constraints_builders() {
    let empty = Constraints::new();
    assert!(empty.is_empty());
    assert_eq!(Constraints::default(), empty);
    let c = Constraints::new()
        .with_minimum("0")
        .with_maximum("120.5")
        .with_min_length(2)
        .with_pattern("^a")
        .with_unique_items(true)
        .with_max_properties(4);
    assert!(!c.is_empty());
    assert_eq!(c.minimum, Some("0".to_string()));
    assert_eq!(c.maximum, Some("120.5".to_string()));
    assert_eq!(c.min_length, Some(2));
    assert_eq!(c.pattern, Some("^a".to_string()));
    assert_eq!(c.unique_items, Some(true));
    assert_eq!(c.max_properties, Some(4));
    assert_eq!(c.max_length, None);
    let p = Property::optional("n", Type::Number)
        .with_constraints(Constraints::new().with_multiple_of("5"))
        .with_extra_constraints(Constraints::new().with_format("email"));
    assert_eq!(p.constraints.multiple_of, Some("5".to_string()));
    assert_eq!(p.extra_constraints.format, Some("email".to_string()));
}

#[test]
fn test_type_def_label_and_tuple() {
    let def = TypeDef::new("T", Type::tuple(vec![Type::String, Type::Number])).with_label("L");
    assert_eq!(def.label, Some("L".to_string()));
    assert_eq!(def.ty, Type::Tuple(vec![Type::String, Type::Number]));
    assert_eq!(
        AdditionalProperties::schema(Type::Boolean),
        AdditionalProperties::Schema(Box::new(Type::Boolean))
    );
    assert_eq!(AdditionalProperties::any(), AdditionalProperties::Any);
}

#[test]
fn test_clone_keeps_everything() {
    let object = ObjectType::new()
        .with_property(
            Property::optional("x", Type::union(vec![Type::String, Type::Nil]))
                .with_description("X")
                .with_constraints(Constraints::new().with_minimum("1")),
        )
        .with_additional_properties(AdditionalProperties::schema(Type::array(Type::Number)));
    let ty = Type::object(object);
    assert_eq!(ty.clone(), ty);
    let def = TypeDef::new("T", ty).with_label("L").with_constraints(Constraints::new().with_max_items(2));
    let mut module = TypeModule::new();
    module.root_type = Some(def.clone());
    module.definitions.push(def.clone().with_export(false));
    let copy = module.clone();
    assert_eq!(format!("{:?}", copy), format!("{:?}", module));
    assert_eq!(IrConfig::default().clone().root_type_name, "Root");
    assert_eq!(Constraints::new().with_format("f").clone(), Constraints::new().with_format("f"));
}
