//! JSON Schema to Luau type definition converter.
//!
//! This library converts JSON Schema documents to Luau type definitions using
//! an Intermediate Representation (IR) architecture:
//!
//! 1. **Parse**: JSON Schema → IR (Intermediate Representation)
//! 2. **Generate**: IR → Luau type definitions
//!
//! Every step states what it computes over mathematical models of its inputs
//! and outputs, and is proved to do so.

pub mod cli;
pub mod error;
pub mod generator;
pub mod ir;
pub mod keyed;
pub mod parser;
pub mod schema;
pub mod text;

use vstd::prelude::*;

pub use error::ConversionError;
pub use generator::{LuauConfig, LuauGenerator};
pub use ir::{IrConfig, Type, TypeDef, TypeModule};
pub use parser::SchemaParser;
pub use schema::JsonSchema;

use error::ErrorModel;
use generator::LuauConfigModel;
use generator::luau::module_text;
use parser::schema::{fresh_parser, parse_outcome};
use schema::SchemaModel;

verus! {

/// The configuration the default generator has.
pub open spec fn default_luau_config() -> LuauConfigModel {
    LuauConfigModel {
        indent: "    "@,
        include_constraints: true,
        include_descriptions: true,
        module_export: true,
    }
}

/// What converting a schema gives: the Luau text of the module that a fresh
/// parser with the root type name `root_type_name` makes of it, rendered by
/// the default generator, or the error of the parse.
pub open spec fn conversion(root_type_name: Seq<char>, s: SchemaModel) -> Result<Seq<char>, ErrorModel> {
    match parse_outcome(fresh_parser(root_type_name, true, true), s).1 {
        Ok(m) => Ok(module_text(default_luau_config(), m)),
        Err(e) => Err(e),
    }
}

/// The model of a text or of the error.
pub open spec fn text_result(r: Result<String, ConversionError>) -> Result<Seq<char>, ErrorModel> {
    match r {
        Ok(t) => Ok(t@),
        Err(e) => Err(e@),
    }
}

/// Convert a parsed JSON Schema to Luau type definitions, with the root
/// type named `Root`.
pub fn convert_parsed_schema(schema: &JsonSchema) -> (r: Result<String, ConversionError>)
    ensures
        text_result(r) == conversion("Root"@, schema@),
{
    let mut parser = SchemaParser::new();
    let module = match parser.parse(schema) {
        Ok(m) => m,
        Err(e) => return Err(e),
    };
    let generator = LuauGenerator::new();
    Ok(generator.generate(&module))
}

/// Convert a parsed JSON Schema to Luau with a custom root type name (which
/// is turned into PascalCase).
pub fn convert_parsed_schema_with_name(schema: &JsonSchema, name: &str) -> (r: Result<
    String,
    ConversionError,
>)
    ensures
        text_result(r) == conversion(name@, schema@),
{
    let config = IrConfig::with_root_type_name(name);
    let mut parser = SchemaParser::with_config(config);
    let module = match parser.parse(schema) {
        Ok(m) => m,
        Err(e) => return Err(e),
    };
    let generator = LuauGenerator::new();
    Ok(generator.generate(&module))
}

} // verus!
