//! Intermediate Representation (IR) for type definitions.
//!
//! This module provides a language-agnostic representation of types that can be
//! derived from JSON Schema and then rendered to various target languages.

pub mod types;

use vstd::prelude::*;

use crate::text::owned;

pub use types::{
    AdditionalModel, AdditionalProperties, Constraints, ConstraintsModel, ObjectModel, ObjectType,
    Property, PropertyModel, Type, TypeDef, TypeDefModel, TypeModel, TypeModule, TypeModuleModel,
};

verus! {

/// Configuration for IR generation.
#[derive(Debug, Clone)]
pub struct IrConfig {
    /// Root type name for the schema.
    pub root_type_name: String,
    /// Whether to include constraint annotations.
    pub include_constraints: bool,
    /// Whether to include descriptions as comments.
    pub include_descriptions: bool,
}

impl Default for IrConfig {
    fn default() -> (r: Self)
        ensures
            r.root_type_name@ == "Root"@,
            r.include_constraints,
            r.include_descriptions,
    {
        IrConfig { root_type_name: owned("Root"), include_constraints: true, include_descriptions: true }
    }
}

impl IrConfig {
    /// Create a new IR config with a custom root type name.
    pub fn with_root_type_name(name: &str) -> (r: Self)
        ensures
            r.root_type_name@ == name@,
            r.include_constraints,
            r.include_descriptions,
    {
        IrConfig { root_type_name: owned(name), include_constraints: true, include_descriptions: true }
    }
}

} // verus!
