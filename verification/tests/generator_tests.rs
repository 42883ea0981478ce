//! Tests for the Luau code generator.

use jsonschema_luau::ir::{AdditionalProperties, Constraints, ObjectType, Property};
use jsonschema_luau::{LuauConfig, LuauGenerator, Type, TypeDef, TypeModule};

fn module_with_root(ty: Type) -> TypeModule {
    let mut module = TypeModule::new();
    module.root_type = Some(TypeDef::new("Root", ty));
    module
}

#[test]
fn test_generator_simple_type() {
    let mut module = TypeModule::new();
    module.root_type = Some(TypeDef::new("Root", Type::String));

    let generator = LuauGenerator::new();
    let output = generator.generate(&module);

    assert!(output.contains("export type Root = string"));
}

#[test]
fn test_generator_with_description() {
    let mut module = TypeModule::new();
    module.root_type = Some(TypeDef::new("Root", Type::Number).with_description("A test type"));

    let generator = LuauGenerator::new();
    let output = generator.generate(&module);

    assert!(output.contains("--- A test type"));
}

#[test]
fn test_generator_config_no_descriptions() {
    let mut module = TypeModule::new();
    module.root_type = Some(TypeDef::new("Root", Type::Number).with_description("A test type"));

    let config = LuauConfig {
        indent: "    ".to_string(),
        include_constraints: true,
        include_descriptions: false,
        module_export: true,
    };
    let generator = LuauGenerator::with_config(config);
    let output = generator.generate(&module);

    assert!(!output.contains("--- A test type"));
}

#[test]
fn test_generator_config_no_module_export() {
    let mut module = TypeModule::new();
    module.root_type = Some(TypeDef::new("Root", Type::Boolean));

    let config = LuauConfig {
        indent: "    ".to_string(),
        include_constraints: true,
        include_descriptions: true,
        module_export: false,
    };
    let generator = LuauGenerator::with_config(config);
    let output = generator.generate(&module);

    assert!(!output.contains("return {}"));
}

#[test]
fn test_generator_boolean_type() {
    let mut module = TypeModule::new();
    module.root_type = Some(TypeDef::new("Root", Type::Boolean));

    let generator = LuauGenerator::new();
    let output = generator.generate(&module);

    assert!(output.contains("export type Root = boolean"));
}

#[test]
fn test_generator_nil_type() {
    let mut module = TypeModule::new();
    module.root_type = Some(TypeDef::new("Root", Type::Nil));

    let generator = LuauGenerator::new();
    let output = generator.generate(&module);

    assert!(output.contains("export type Root = nil"));
}

#[test]
fn test_generator_any_type() {
    let mut module = TypeModule::new();
    module.root_type = Some(TypeDef::new("Root", Type::Any));

    let generator = LuauGenerator::new();
    let output = generator.generate(&module);

    assert!(output.contains("export type Root = any"));
}

#[test]
fn test_generator_array_type() {
    let mut module = TypeModule::new();
    module.root_type = Some(TypeDef::new("Root", Type::array(Type::Number)));

    let generator = LuauGenerator::new();
    let output = generator.generate(&module);

    assert!(output.contains("export type Root = { number }"));
}

#[test]
fn test_generator_union_type() {
    let mut module = TypeModule::new();
    module.root_type = Some(TypeDef::new(
        "Root",
        Type::union(vec![Type::String, Type::Number]),
    ));

    let generator = LuauGenerator::new();
    let output = generator.generate(&module);

    assert!(output.contains("export type Root ="));
    assert!(output.contains("string"));
    assert!(output.contains("number"));
    assert!(output.contains("|"));
}

#[test]
fn test_generator_string_literal() {
    let mut module = TypeModule::new();
    module.root_type = Some(TypeDef::new(
        "Root",
        Type::StringLiteral("test".to_string()),
    ));

    let generator = LuauGenerator::new();
    let output = generator.generate(&module);

    assert!(output.contains("export type Root = \"test\""));
}

#[test]
fn test_generator_number_literal() {
    let mut module = TypeModule::new();
    module.root_type = Some(TypeDef::new("Root", Type::NumberLiteral("42".to_string())));

    let generator = LuauGenerator::new();
    let output = generator.generate(&module);

    assert!(output.contains("export type Root = 42"));
}

#[test]
fn test_generator_reference() {
    let mut module = TypeModule::new();
    module.root_type = Some(TypeDef::new("Root", Type::reference("OtherType")));

    let generator = LuauGenerator::new();
    let output = generator.generate(&module);

    assert!(output.contains("export type Root = OtherType"));
}

#[test]
fn test_generate_object_with_constraints_exact() {
    let object = ObjectType::new()
        .with_property(
            Property::optional("age", Type::Number)
                .with_constraints(Constraints::new().with_minimum("0").with_maximum("120")),
        )
        .with_property(Property::required("name", Type::String));
    let output = LuauGenerator::new().generate(&module_with_root(Type::object(object)));
    assert_eq!(
        output,
        "export type Root = {\n    --- @minimum 0\n    --- @maximum 120\n    age: number?,\n    name: string,\n}\n\nreturn {}\n"
    );
}

#[test]
fn test_generate_empty_module() {
    assert_eq!(LuauGenerator::new().generate(&TypeModule::new()), "\n\nreturn {}\n");
    let config = LuauConfig {
        indent: "    ".to_string(),
        include_constraints: true,
        include_descriptions: true,
        module_export: false,
    };
    assert_eq!(LuauGenerator::with_config(config).generate(&TypeModule::new()), "\n");
}

#[test]
fn test_generate_definitions_and_labels() {
    let mut module = TypeModule::new();
    module.root_type = Some(
        TypeDef::new("Root", Type::union(vec![Type::reference("A"), Type::Nil]))
            .with_description("Top")
            .with_label("Union type (any of these types)"),
    );
    module.definitions.push(TypeDef::new("A", Type::String));
    let output = LuauGenerator::new().generate(&module);
    assert_eq!(
        output,
        "--- Top\n--- Union type (any of these types)\nexport type Root = A | nil\n\nexport type A = string\n\nreturn {}\n"
    );
}

#[test]
fn test_generate_inline_and_parens() {
    let inner = ObjectType::new()
        .with_property(Property::required("x", Type::Number))
        .with_property(Property::optional("y", Type::String))
        .with_additional_properties(AdditionalProperties::any());
    let object = ObjectType::new()
        .with_property(Property::optional("maybe", Type::union(vec![Type::String, Type::Nil])))
        .with_property(Property::required("point", Type::object(inner)))
        .with_property(Property::required(
            "list",
            Type::array(Type::union(vec![Type::Number, Type::Boolean])),
        ))
        .with_additional_properties(AdditionalProperties::schema(Type::map(Type::Number)));
    let config = LuauConfig {
        indent: "\t".to_string(),
        include_constraints: true,
        include_descriptions: true,
        module_export: false,
    };
    let output = LuauGenerator::with_config(config).generate(&module_with_root(Type::object(object)));
    assert_eq!(
        output,
        "export type Root = {\n\tmaybe: (string | nil)?,\n\tpoint: { x: number, y: string?, [string]: any },\n\tlist: { (number | boolean) },\n\t[string]: { [string]: number },\n}\n"
    );
}

#[test]
fn test_generate_all_constraints_in_order() {
    let constraints = Constraints::new()
        .with_max_properties(9)
        .with_min_properties(1)
        .with_unique_items(true)
        .with_max_items(8)
        .with_min_items(2)
        .with_format("email")
        .with_pattern("^x$")
        .with_max_length(7)
        .with_min_length(3)
        .with_multiple_of("0.5")
        .with_exclusive_maximum("10")
        .with_exclusive_minimum("-1")
        .with_maximum("9")
        .with_minimum("0");
    let object = ObjectType::new().with_property(
        Property::required("v", Type::Any)
            .with_description("Value")
            .with_constraints(constraints)
            .with_extra_constraints(Constraints::new().with_min_length(1)),
    );
    let output = LuauGenerator::new().generate(&module_with_root(Type::object(object)));
    assert_eq!(
        output,
        "export type Root = {\n    --- Value\n    --- @minimum 0\n    --- @maximum 9\n    --- @exclusiveMinimum -1\n    --- @exclusiveMaximum 10\n    --- @multipleOf 0.5\n    --- @minLength 3\n    --- @maxLength 7\n    --- @pattern ^x$\n    --- @format email\n    --- @minItems 2\n    --- @maxItems 8\n    --- @uniqueItems true\n    --- @minProperties 1\n    --- @maxProperties 9\n    --- @minLength 1\n    v: any,\n}\n\nreturn {}\n"
    );
}

#[test]
fn test_generate_without_constraints_or_descriptions() {
    let object = ObjectType::new().with_property(
        Property::required("v", Type::Number)
            .with_description("Value")
            .with_constraints(Constraints::new().with_minimum("1")),
    );
    let config = LuauConfig {
        indent: "  ".to_string(),
        include_constraints: false,
        include_descriptions: false,
        module_export: true,
    };
    let output =
        LuauGenerator::with_config(config).generate(&module_with_root(Type::object(object)));
    assert_eq!(output, "export type Root = {\n  v: number,\n}\n\nreturn {}\n");
}

#[test]
fn test_generate_misc_types() {
    let ty = Type::intersection(vec![
        Type::reference("A"),
        Type::union(vec![Type::reference("B"), Type::reference("C")]),
    ]);
    let output = LuauGenerator::default().generate(&module_with_root(ty));
    assert_eq!(output, "export type Root = A & (B | C)\n\nreturn {}\n");
    let enum_ty = Type::enum_union(vec![Type::string_literal("a"), Type::string_literal("b")]);
    let output = LuauGenerator::new().generate(&module_with_root(Type::array(enum_ty)));
    assert_eq!(output, "export type Root = { \"a\" | \"b\" }\n\nreturn {}\n");
    let tuple = Type::tuple(vec![Type::BooleanLiteral(false), Type::Never]);
    let output = LuauGenerator::new().generate(&module_with_root(tuple));
    assert_eq!(output, "export type Root = { false, never }\n\nreturn {}\n");
}

#[test]
fn test_escape_string() {
    let generator = LuauGenerator::new();
    assert_eq!(generator.escape_string("plain"), "plain");
    assert_eq!(
        generator.escape_string("a\"b\\c\nd\re\tf"),
        "a\\\"b\\\\c\\nd\\re\\tf"
    );
    let output = generator.generate(&module_with_root(Type::string_literal("say \"hi\"")));
    assert_eq!(output, "export type Root = \"say \\\"hi\\\"\"\n\nreturn {}\n");
}

#[test]
fn test_generate_unexported_and_root_constraints() {
    let mut module = TypeModule::new();
    module.root_type = Some(
        TypeDef::new("Root", Type::array(Type::String))
            .with_description("Names")
            .with_constraints(Constraints::new().with_min_items(1).with_max_items(10)),
    );
    module.definitions.push(TypeDef::new("Hidden", Type::Number).with_export(false));
    let output = LuauGenerator::new().generate(&module);
    assert_eq!(
        output,
        "--- Names\n--- @minItems 1\n--- @maxItems 10\nexport type Root = { string }\n\ntype Hidden = number\n\nreturn {}\n"
    );
    let config = LuauConfig {
        indent: "    ".to_string(),
        include_constraints: false,
        include_descriptions: false,
        module_export: false,
    };
    let output = LuauGenerator::with_config(config).generate(&module);
    assert_eq!(output, "export type Root = { string }\n\ntype Hidden = number\n");
}
