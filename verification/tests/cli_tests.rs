//! Tests for the command-line options and runs.

use jsonschema_luau::cli::{Cli, InputSource, RunOutcome};
use jsonschema_luau::schema::{SchemaObject, SchemaType, SingleType};
use jsonschema_luau::{ConversionError, JsonSchema};

fn options() -> Cli {
    Cli {
        input: None,
        output: None,
        stdin: false,
        output_file: None,
        root_name: "Root".to_string(),
        no_constraints: false,
        no_descriptions: false,
        no_module_export: false,
        indent: None,
        validate: false,
        debug_ir: false,
    }
}

fn with_indent(indent: &str) -> String {
    let mut cli = options();
    cli.indent = Some(indent.to_string());
    cli.get_indent()
}

#[test]
fn test_get_indent() {
    assert_eq!(options().get_indent(), "    ");
    assert_eq!(with_indent("tab"), "\t");
    assert_eq!(with_indent("2"), "  ");
    assert_eq!(with_indent("0"), "");
    assert_eq!(with_indent("007"), "       ");
    assert_eq!(with_indent(""), "    ");
    assert_eq!(with_indent("99999999999999999999999"), "    ");
    assert_eq!(with_indent("-->"), "-->");
    assert_eq!(with_indent("+3"), "+3");
}

#[test]
fn test_input_source() {
    let cli = options();
    assert!(matches!(cli.input_source(), InputSource::Stdin));
    let mut cli = options();
    cli.input = Some("schema.json".to_string());
    match cli.input_source() {
        InputSource::File(p) => assert_eq!(p, "schema.json"),
        InputSource::Stdin => panic!("expected a file"),
    }
    cli.stdin = true;
    assert!(matches!(cli.input_source(), InputSource::Stdin));
    let mut cli = options();
    cli.input = Some("-".to_string());
    assert!(matches!(cli.input_source(), InputSource::Stdin));
}

#[test]
fn test_output_target() {
    let mut cli = options();
    assert_eq!(cli.output_target(), None);
    cli.output = Some("a.luau".to_string());
    assert_eq!(cli.output_target(), Some("a.luau".to_string()));
    cli.output_file = Some("b.luau".to_string());
    assert_eq!(cli.output_target(), Some("b.luau".to_string()));
}

#[test]
fn test_configs() {
    let mut cli = options();
    cli.root_name = "Thing".to_string();
    cli.no_constraints = true;
    cli.no_module_export = true;
    cli.indent = Some("1".to_string());
    let ir = cli.ir_config();
    assert_eq!(ir.root_type_name, "Thing");
    assert!(ir.include_constraints);
    let luau = cli.luau_config();
    assert_eq!(luau.indent, " ");
    assert!(!luau.include_constraints);
    assert!(luau.include_descriptions);
    assert!(!luau.module_export);
}

fn string_schema() -> JsonSchema {
    let mut o = SchemaObject::new();
    o.type_ = Some(SchemaType::Single(SingleType::String));
    JsonSchema::Object(o)
}

#[test]
fn test_run_outcomes() {
    let mut cli = options();
    cli.validate = true;
    assert!(matches!(cli.run(&string_schema()), Ok(RunOutcome::Validated)));

    let mut cli = options();
    cli.debug_ir = true;
    match cli.run(&string_schema()) {
        Ok(RunOutcome::DebugIr(module)) => assert_eq!(module.root_type.unwrap().name, "Root"),
        other => panic!("unexpected {:?}", other),
    }

    let mut cli = options();
    cli.root_name = "name_tag".to_string();
    cli.no_module_export = true;
    cli.output_file = Some("out.luau".to_string());
    match cli.run(&string_schema()) {
        Ok(RunOutcome::Generated { output, target }) => {
            assert_eq!(output, "export type NameTag = string\n");
            assert_eq!(target, Some("out.luau".to_string()));
        }
        other => panic!("unexpected {:?}", other),
    }

    let mut bad = SchemaObject::new();
    bad.ref_ = Some("elsewhere".to_string());
    let result = options().run(&JsonSchema::Object(bad));
    assert!(matches!(result, Err(ConversionError::UnsupportedRef { .. })));
}
