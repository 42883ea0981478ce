//! Parsing of JSON Schema documents into the IR.

pub mod schema;

pub use schema::{ParserModel, SchemaParser};
