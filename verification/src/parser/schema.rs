//! JSON Schema to IR parser.
//!
//! The behaviour of the parser is stated by the spec functions of this
//! module, over the models of schemas (`crate::schema`) and of IR types
//! (`crate::ir::types`).  Names are turned into PascalCase by
//! `convert_case`, whose result is named `pascal_case`.

use vstd::prelude::*;

use convert_case::{Case, Casing};

use crate::error::{ConversionError, ErrorModel};
use crate::ir::types::{
    enum_union_of, intersection_of, lemma_types_model, lemma_types_model_concat, no_constraints,
    properties_model, types_model, union_of, AdditionalModel,
    AdditionalProperties as IrAdditionalProperties, Constraints, ConstraintsModel, ObjectModel,
    ObjectType, Property, PropertyModel, Type, TypeDef, TypeDefModel, TypeModel, TypeModule,
    TypeModuleModel, defs_model,
};
use crate::keyed::{
    entries_insert, insert_all, keyed, lemma_map_insert_map_values, map_entry_values, map_insert,
};
use crate::ir::IrConfig;
use crate::schema::{
    additional_schema_model, json_values_model, lemma_entries_model_index,
    lemma_json_values_model, lemma_map_view, lemma_opt_map_model, lemma_schemas_model,
    schemas_model, AdditionalProperties as SchemaAdditionalProperties, SchemaMap, AdditionalSchemaModel, JsonSchema, JsonValue, JsonValueModel, SchemaModel,
    SchemaObject, SchemaObjectModel, SchemaType, SchemaTypeModel, SingleType,
};
use crate::text::{lex_lt, owned, starts_with, strip_prefix, text_eq, texts};

verus! {

broadcast use vstd::std_specs::vec::group_vec_axioms;

// ---------------------------------------------------------------------------
// Names
// ---------------------------------------------------------------------------

/// The PascalCase form of a name, as `convert_case` computes it.
pub uninterp spec fn pascal_case(text: Seq<char>) -> Seq<char>;

/// The PascalCase form of a name.
///
/// Trusted: calls `Casing::to_case` of `convert_case` with `Case::Pascal`,
/// which depends on the text alone; its result is named `pascal_case`.
#[verifier::external_body]
fn to_pascal_case(text: &str) -> (r: String)
    ensures
        r@ == pascal_case(text@),
{
    text.to_case(Case::Pascal)
}

// ---------------------------------------------------------------------------
// The meaning of single keywords
// ---------------------------------------------------------------------------

/// The definition name a `$ref` points to, if it has one of the two local forms.
pub open spec fn ref_target(path: Seq<char>) -> Option<Seq<char>> {
    if starts_with(path, "#/definitions/"@) {
        Some(path.skip("#/definitions/"@.len() as int))
    } else if starts_with(path, "#/$defs/"@) {
        Some(path.skip("#/$defs/"@.len() as int))
    } else {
        None
    }
}

/// The type a `$ref` stands for: a reference to the PascalCase name of its
/// target, or an error for a reference that is not local.
pub open spec fn ref_result(path: Seq<char>) -> Result<TypeModel, ErrorModel> {
    match ref_target(path) {
        Some(name) => Ok(TypeModel::Reference(pascal_case(name))),
        None => Err(ErrorModel::UnsupportedRef { ref_path: path }),
    }
}

/// Every value is a number.
pub open spec fn all_numbers(vs: Seq<JsonValueModel>) -> bool {
    forall|i: int| 0 <= i < vs.len() ==> #[trigger] vs[i] is Number
}

/// Every value is a string.
pub open spec fn all_strings(vs: Seq<JsonValueModel>) -> bool {
    forall|i: int| 0 <= i < vs.len() ==> #[trigger] vs[i] is String
}

/// The string literal type of a string value.
pub open spec fn string_literal_of(v: JsonValueModel) -> TypeModel {
    match v {
        JsonValueModel::String(s) => TypeModel::StringLiteral(s),
        _ => TypeModel::Any,
    }
}

/// The type of an `enum`: `number` when every value is a number, the union
/// of the string literals when every value is a string, and otherwise the
/// union of all primitive types.
pub open spec fn enum_type(vs: Seq<JsonValueModel>) -> TypeModel {
    if all_numbers(vs) {
        TypeModel::Number
    } else if all_strings(vs) {
        enum_union_of(vs.map_values(|v: JsonValueModel| string_literal_of(v)))
    } else {
        enum_union_of(
            seq![TypeModel::String, TypeModel::Number, TypeModel::Boolean, TypeModel::Nil],
        )
    }
}

/// The type of a `const`.
pub open spec fn const_type(v: JsonValueModel) -> TypeModel {
    match v {
        JsonValueModel::String(s) => TypeModel::StringLiteral(s),
        JsonValueModel::Number(_) => TypeModel::Number,
        JsonValueModel::Bool(b) => TypeModel::BooleanLiteral(b),
        JsonValueModel::Null => TypeModel::Nil,
        _ => TypeModel::Any,
    }
}

/// The type names of a `type` keyword.
pub open spec fn single_types(t: SchemaTypeModel) -> Seq<SingleType> {
    match t {
        SchemaTypeModel::Single(s) => seq![s],
        SchemaTypeModel::Multiple(v) => v,
    }
}

/// The type a type name stands for inside a list of type names.
pub open spec fn single_type_model(t: SingleType) -> TypeModel {
    match t {
        SingleType::String => TypeModel::String,
        SingleType::Number | SingleType::Integer => TypeModel::Number,
        SingleType::Boolean => TypeModel::Boolean,
        SingleType::Null => TypeModel::Nil,
        SingleType::Array => TypeModel::Array(Box::new(TypeModel::Any)),
        SingleType::Object => TypeModel::Dictionary(Box::new(TypeModel::Any)),
    }
}

/// Whether an object sets `properties`, `additionalProperties` or `required`.
pub open spec fn has_parent_props(o: SchemaObjectModel) -> bool {
    o.properties is Some || o.additional_properties is Some || o.required is Some
}

/// The comment a top-level type gets when it is a pure composition.
pub open spec fn composition_label_model(o: SchemaObjectModel) -> Option<Seq<char>> {
    if o.all_of is Some {
        if has_parent_props(o) {
            None
        } else {
            Some("Intersection type (all conditions must be met)"@)
        }
    } else if o.any_of is Some {
        Some("Union type (any of these types)"@)
    } else if o.one_of is Some {
        Some("Union type (exactly one of these types)"@)
    } else {
        None
    }
}

/// The constraints a schema object states.
pub open spec fn object_constraints(o: SchemaObjectModel) -> ConstraintsModel {
    ConstraintsModel {
        minimum: o.minimum,
        maximum: o.maximum,
        exclusive_minimum: o.exclusive_minimum,
        exclusive_maximum: o.exclusive_maximum,
        multiple_of: o.multiple_of,
        min_length: o.min_length,
        max_length: o.max_length,
        pattern: o.pattern,
        format: o.format,
        min_items: o.min_items,
        max_items: o.max_items,
        unique_items: if o.unique_items == Some(true) {
            Some(true)
        } else {
            None
        },
        min_properties: o.min_properties,
        max_properties: o.max_properties,
    }
}

/// The constraints of a schema (none for `true` and `false`).
pub open spec fn schema_constraints(s: SchemaModel) -> ConstraintsModel {
    match s {
        SchemaModel::Object(o) => object_constraints(o),
        _ => no_constraints(),
    }
}

/// The constraints of the `additionalProperties` sub-schema of a schema.
pub open spec fn additional_constraints(s: SchemaModel) -> ConstraintsModel {
    match s {
        SchemaModel::Object(o) => match o.additional_properties {
            Some(AdditionalSchemaModel::Schema(b)) => schema_constraints(*b),
            _ => no_constraints(),
        },
        _ => no_constraints(),
    }
}

/// The description of a schema.
pub open spec fn schema_description(s: SchemaModel) -> Option<Seq<char>> {
    match s {
        SchemaModel::Object(o) => o.description,
        _ => None,
    }
}

/// The required names of an object (none when `required` is absent).
pub open spec fn required_names(o: SchemaObjectModel) -> Seq<Seq<char>> {
    match o.required {
        Some(r) => r,
        None => Seq::empty(),
    }
}

// ---------------------------------------------------------------------------
// Schemas to types
// ---------------------------------------------------------------------------

/// What the parser keeps of a schema besides its types.
pub struct ParseOptions {
    /// Whether constraints are kept.
    pub constraints: bool,
    /// Whether descriptions are kept.
    pub descriptions: bool,
}

/// The options a parser configuration asks for.
pub open spec fn config_options(c: IrConfig) -> ParseOptions {
    ParseOptions { constraints: c.include_constraints, descriptions: c.include_descriptions }
}

/// A property parsed before it is known whether it is required.
pub type PropertyOutcome = Result<PropertyModel, ErrorModel>;

/// The type of a schema; `inc` says whether constraints and descriptions are kept.
pub open spec fn schema_type(s: SchemaModel, inc: ParseOptions) -> Result<TypeModel, ErrorModel>
    decreases s, 8nat,
{
    match s {
        SchemaModel::Boolean(b) => Ok(if b { TypeModel::Any } else { TypeModel::Never }),
        SchemaModel::Object(o) => object_type(o, inc),
    }
}

/// The type of a schema object.
///
/// An object with `allOf` and its own `properties`, `additionalProperties`
/// or `required` is merged: the properties of the members without `$ref` are
/// merged into the object's own (a later one replacing an earlier one of the
/// same name), their required names are added, and each `$ref` member joins
/// the result as an intersection member.
pub open spec fn object_type(o: SchemaObjectModel, inc: ParseOptions) -> Result<TypeModel, ErrorModel>
    decreases o, 7nat,
{
    if o.ref_ is Some {
        ref_result(o.ref_->0)
    } else if o.enum_ is Some {
        Ok(enum_type(o.enum_->0))
    } else if o.const_ is Some {
        Ok(const_type(o.const_->0))
    } else {
        match o.all_of {
            Some(subs) => if has_parent_props(o) {
                match sub_refs(subs) {
                    Err(e) => Err(e),
                    Ok(refs) => {
                        let merged = merge_sub_properties(own_outcomes(o, inc), subs, inc);
                        let props = if merged.len() == 0 {
                            None
                        } else {
                            Some(merged)
                        };
                        match rest_type(o, props, required_names(o) + sub_required(subs), inc) {
                            Err(e) => Err(e),
                            Ok(t) => if refs.len() == 0 {
                                Ok(t)
                            } else {
                                Ok(intersection_of(seq![t] + refs))
                            },
                        }
                    },
                }
            } else {
                match schemas_types(subs, inc) {
                    Ok(ts) => Ok(intersection_of(ts)),
                    Err(e) => Err(e),
                }
            },
            None => {
                let props = match o.properties {
                    Some(p) => Some(property_outcomes(p, inc)),
                    None => None,
                };
                rest_type(o, props, required_names(o), inc)
            },
        }
    }
}

/// The object's own properties, parsed (none when `properties` is absent).
pub open spec fn own_outcomes(o: SchemaObjectModel, inc: ParseOptions) -> Seq<(Seq<char>, PropertyOutcome)>
    decreases o, 6nat,
{
    match o.properties {
        Some(p) => property_outcomes(p, inc),
        None => Seq::empty(),
    }
}

/// The properties of the sub-schemas without `$ref`, merged into `acc` in order.
pub open spec fn merge_sub_properties(
    acc: Seq<(Seq<char>, PropertyOutcome)>,
    subs: Seq<SchemaModel>,
    inc: ParseOptions,
) -> Seq<(Seq<char>, PropertyOutcome)>
    decreases subs, 1nat,
{
    if subs.len() == 0 {
        acc
    } else {
        let prev = merge_sub_properties(acc, subs.drop_last(), inc);
        match subs.last() {
            SchemaModel::Object(so) => if so.ref_ is None && so.properties is Some {
                insert_all(prev, property_outcomes(so.properties->0, inc))
            } else {
                prev
            },
            _ => prev,
        }
    }
}

/// The type of an object past `$ref`, `enum`, `const` and `allOf`, with its
/// properties already parsed (`props`) and the names that are required.
pub open spec fn rest_type(
    o: SchemaObjectModel,
    props: Option<Seq<(Seq<char>, PropertyOutcome)>>,
    required: Seq<Seq<char>>,
    inc: ParseOptions,
) -> Result<TypeModel, ErrorModel>
    decreases o, 5nat,
{
    if o.any_of is Some {
        match schemas_types(o.any_of->0, inc) {
            Ok(ts) => Ok(union_of(ts)),
            Err(e) => Err(e),
        }
    } else if o.one_of is Some {
        match schemas_types(o.one_of->0, inc) {
            Ok(ts) => Ok(union_of(ts)),
            Err(e) => Err(e),
        }
    } else if o.type_ is Some {
        let ts = single_types(o.type_->0);
        if ts.len() == 0 {
            Ok(TypeModel::Any)
        } else if ts.len() > 1 {
            Ok(union_of(ts.map_values(|t: SingleType| single_type_model(t))))
        } else {
            single_type(o, ts[0], props, required, inc)
        }
    } else if props is Some || o.additional_properties is Some {
        object_shape(o, props, required, inc)
    } else {
        Ok(TypeModel::Any)
    }
}

/// The type of an object whose `type` is one type name.
pub open spec fn single_type(
    o: SchemaObjectModel,
    t: SingleType,
    props: Option<Seq<(Seq<char>, PropertyOutcome)>>,
    required: Seq<Seq<char>>,
    inc: ParseOptions,
) -> Result<TypeModel, ErrorModel>
    decreases o, 4nat,
{
    match t {
        SingleType::Object => object_shape(o, props, required, inc),
        SingleType::Array => match o.items {
            Some(b) => match schema_type(*b, inc) {
                Ok(e) => Ok(TypeModel::Array(Box::new(e))),
                Err(e) => Err(e),
            },
            None => Ok(TypeModel::Array(Box::new(TypeModel::Any))),
        },
        _ => Ok(single_type_model(t)),
    }
}

/// The type of an object with the given properties and additional
/// properties: without properties, a map of what the additional properties
/// allow (`any` when they are absent or `true`), unless they are `false`;
/// otherwise an object type.
pub open spec fn shape_of(ps: Seq<PropertyModel>, am: Option<AdditionalModel>) -> TypeModel {
    if ps.len() == 0 {
        match am {
            None => TypeModel::Dictionary(Box::new(TypeModel::Any)),
            Some(AdditionalModel::Any) => TypeModel::Dictionary(Box::new(TypeModel::Any)),
            Some(AdditionalModel::Schema(t)) => TypeModel::Dictionary(t),
            Some(AdditionalModel::False) => TypeModel::Object(
                ObjectModel { properties: ps, additional_properties: am },
            ),
        }
    } else {
        TypeModel::Object(ObjectModel { properties: ps, additional_properties: am })
    }
}

/// The type of an object: its properties in order, each optional unless its
/// name is required, then its additional properties (see `shape_of`).
pub open spec fn object_shape(
    o: SchemaObjectModel,
    props: Option<Seq<(Seq<char>, PropertyOutcome)>>,
    required: Seq<Seq<char>>,
    inc: ParseOptions,
) -> Result<TypeModel, ErrorModel>
    decreases o, 3nat,
{
    let listed = match props {
        Some(p) => collect_properties(p, required),
        None => Ok(Seq::empty()),
    };
    match listed {
        Err(e) => Err(e),
        Ok(ps) => match o.additional_properties {
            None => Ok(shape_of(ps, None)),
            Some(a) => match additional_type(a, inc) {
                Err(e) => Err(e),
                Ok(am) => Ok(shape_of(ps, Some(am))),
            },
        },
    }
}

/// What `additionalProperties` allows.
pub open spec fn additional_type(a: AdditionalSchemaModel, inc: ParseOptions) -> Result<AdditionalModel, ErrorModel>
    decreases a, 2nat,
{
    match a {
        AdditionalSchemaModel::Boolean(true) => Ok(AdditionalModel::Any),
        AdditionalSchemaModel::Boolean(false) => Ok(AdditionalModel::False),
        AdditionalSchemaModel::Schema(b) => match schema_type(*b, inc) {
            Ok(t) => Ok(AdditionalModel::Schema(Box::new(t))),
            Err(e) => Err(e),
        },
    }
}

/// The types of a list of schemas, or the first error among them.
pub open spec fn schemas_types(subs: Seq<SchemaModel>, inc: ParseOptions) -> Result<Seq<TypeModel>, ErrorModel>
    decreases subs, 1nat,
{
    if subs.len() == 0 {
        Ok(Seq::empty())
    } else {
        match schemas_types(subs.drop_last(), inc) {
            Err(e) => Err(e),
            Ok(ts) => match schema_type(subs.last(), inc) {
                Err(e) => Err(e),
                Ok(t) => Ok(ts.push(t)),
            },
        }
    }
}

/// Each named schema parsed as a property (optional until its name is known
/// to be required).
pub open spec fn property_outcomes(entries: Seq<(Seq<char>, SchemaModel)>, inc: ParseOptions) -> Seq<
    (Seq<char>, PropertyOutcome),
>
    decreases entries, 1nat,
{
    if entries.len() == 0 {
        Seq::empty()
    } else {
        property_outcomes(entries.drop_last(), inc).push(
            (entries.last().0, property_outcome(entries.last().0, entries.last().1, inc)),
        )
    }
}

/// A named schema parsed as an optional property: its type, description,
/// and, when `inc` holds, its constraints and those of its
/// `additionalProperties` sub-schema.
pub open spec fn property_outcome(name: Seq<char>, s: SchemaModel, inc: ParseOptions) -> PropertyOutcome
    decreases s, 9nat,
{
    match schema_type(s, inc) {
        Err(e) => Err(e),
        Ok(t) => Ok(
            PropertyModel {
                name,
                ty: t,
                optional: true,
                description: if inc.descriptions {
                    schema_description(s)
                } else {
                    None
                },
                constraints: if inc.constraints {
                    schema_constraints(s)
                } else {
                    no_constraints()
                },
                extra_constraints: if inc.constraints {
                    additional_constraints(s)
                } else {
                    no_constraints()
                },
            },
        ),
    }
}

/// The `$ref` members of an `allOf`, or the first error among them.
pub open spec fn sub_refs(subs: Seq<SchemaModel>) -> Result<Seq<TypeModel>, ErrorModel>
    decreases subs.len(),
{
    if subs.len() == 0 {
        Ok(Seq::empty())
    } else {
        match sub_refs(subs.drop_last()) {
            Err(e) => Err(e),
            Ok(ts) => match subs.last() {
                SchemaModel::Object(so) => if so.ref_ is Some {
                    match ref_result(so.ref_->0) {
                        Ok(t) => Ok(ts.push(t)),
                        Err(e) => Err(e),
                    }
                } else {
                    Ok(ts)
                },
                _ => Ok(ts),
            },
        }
    }
}

/// The required names of the members of an `allOf` without `$ref`.
pub open spec fn sub_required(subs: Seq<SchemaModel>) -> Seq<Seq<char>>
    decreases subs.len(),
{
    if subs.len() == 0 {
        Seq::empty()
    } else {
        let prev = sub_required(subs.drop_last());
        match subs.last() {
            SchemaModel::Object(so) => if so.ref_ is None {
                prev + required_names(so)
            } else {
                prev
            },
            _ => prev,
        }
    }
}

/// The properties in order, each required when its name is, or the first
/// error among them.
pub open spec fn collect_properties(
    p: Seq<(Seq<char>, PropertyOutcome)>,
    required: Seq<Seq<char>>,
) -> Result<Seq<PropertyModel>, ErrorModel>
    decreases p.len(),
{
    if p.len() == 0 {
        Ok(Seq::empty())
    } else {
        match collect_properties(p.drop_last(), required) {
            Err(e) => Err(e),
            Ok(ps) => match p.last().1 {
                Err(e) => Err(e),
                Ok(pm) => Ok(ps.push(PropertyModel { optional: !required.contains(p.last().0), ..pm })),
            },
        }
    }
}

// ---------------------------------------------------------------------------
// Type definitions and whole documents
// ---------------------------------------------------------------------------

/// The type definition named `name` that a schema becomes, exported, with the
/// label of a pure composition, and the schema's description and constraints
/// when `inc` keeps them.
pub open spec fn type_def_result(s: SchemaModel, name: Seq<char>, inc: ParseOptions) -> Result<
    TypeDefModel,
    ErrorModel,
> {
    match s {
        SchemaModel::Boolean(b) => Ok(
            TypeDefModel {
                name,
                description: None,
                label: None,
                constraints: no_constraints(),
                ty: if b {
                    TypeModel::Any
                } else {
                    TypeModel::Never
                },
                exported: true,
            },
        ),
        SchemaModel::Object(o) => match object_type(o, inc) {
            Err(e) => Err(e),
            Ok(t) => Ok(
                TypeDefModel {
                    name,
                    description: if inc.descriptions {
                        o.description
                    } else {
                        None
                    },
                    label: composition_label_model(o),
                    constraints: if inc.constraints {
                        object_constraints(o)
                    } else {
                        no_constraints()
                    },
                    ty: t,
                    exported: true,
                },
            ),
        },
    }
}

/// The definitions after those of a schema (`definitions`, then `$defs`) are
/// added, each replacing one of the same name.
pub open spec fn extracted_definitions(
    defs: Seq<(Seq<char>, SchemaModel)>,
    s: SchemaModel,
) -> Seq<(Seq<char>, SchemaModel)> {
    match s {
        SchemaModel::Object(o) => {
            let with_definitions = match o.definitions {
                Some(d) => insert_all(defs, d),
                None => defs,
            };
            match o.defs {
                Some(d) => insert_all(with_definitions, d),
                None => with_definitions,
            }
        },
        SchemaModel::Boolean(_) => defs,
    }
}

/// The definitions turned into type definitions in order of their names:
/// one whose PascalCase name was generated already is skipped; otherwise
/// its name is recorded as generated and it is parsed.  Gives the generated
/// names afterwards, and the type definitions or the first error.
pub open spec fn definitions_outcome(
    generated: Seq<Seq<char>>,
    entries: Seq<(Seq<char>, SchemaModel)>,
    inc: ParseOptions,
) -> (Seq<Seq<char>>, Result<Seq<TypeDefModel>, ErrorModel>)
    decreases entries.len(),
{
    if entries.len() == 0 {
        (generated, Ok(Seq::empty()))
    } else {
        let name = pascal_case(entries[0].0);
        if generated.contains(name) {
            definitions_outcome(generated, entries.drop_first(), inc)
        } else {
            let generated = generated.push(name);
            match type_def_result(entries[0].1, name, inc) {
                Err(e) => (generated, Err(e)),
                Ok(d) => prefixed(seq![d], definitions_outcome(generated, entries.drop_first(), inc)),
            }
        }
    }
}

/// An outcome with `ds` put before its type definitions.
pub open spec fn prefixed(
    ds: Seq<TypeDefModel>,
    o: (Seq<Seq<char>>, Result<Seq<TypeDefModel>, ErrorModel>),
) -> (Seq<Seq<char>>, Result<Seq<TypeDefModel>, ErrorModel>) {
    (
        o.0,
        match o.1 {
            Ok(rest) => Ok(ds + rest),
            Err(e) => Err(e),
        },
    )
}

/// The options a parser's configuration asks for.
pub open spec fn model_options(st: ParserModel) -> ParseOptions {
    ParseOptions { constraints: st.include_constraints, descriptions: st.include_descriptions }
}

/// A parser with a configuration and nothing parsed yet.
pub open spec fn fresh_parser(
    root_type_name: Seq<char>,
    include_constraints: bool,
    include_descriptions: bool,
) -> ParserModel {
    ParserModel {
        root_type_name,
        include_constraints,
        include_descriptions,
        definitions: Seq::empty(),
        generated: Seq::empty(),
    }
}

/// What parsing a schema does: the schema's definitions are collected, the
/// root type definition is named after the PascalCase root type name, then
/// every collected definition follows (see `definitions_outcome`).  Gives the
/// parser afterwards, and the module or the first error.
pub open spec fn parse_outcome(st: ParserModel, s: SchemaModel) -> (
    ParserModel,
    Result<TypeModuleModel, ErrorModel>,
) {
    let definitions = extracted_definitions(st.definitions, s);
    let root_name = pascal_case(st.root_type_name);
    let generated = st.generated.push(root_name);
    let st1 = ParserModel { definitions, generated, ..st };
    match type_def_result(s, root_name, model_options(st)) {
        Err(e) => (st1, Err(e)),
        Ok(root) => {
            let (generated, defs) = definitions_outcome(generated, definitions, model_options(st));
            (
                ParserModel { generated, ..st1 },
                match defs {
                    Ok(ds) => Ok(TypeModuleModel { root_type: Some(root), definitions: ds }),
                    Err(e) => Err(e),
                },
            )
        },
    }
}

// ---------------------------------------------------------------------------
// Laws
// ---------------------------------------------------------------------------

/// A type definition made of a schema has the name it was asked for and is
/// exported.
pub proof fn lemma_type_def_result(s: SchemaModel, name: Seq<char>, inc: ParseOptions)
    ensures
        type_def_result(s, name, inc) matches Ok(d) ==> d.name == name && d.exported,
{
}

/// Turning definitions into type definitions only adds generated names, and
/// the type definitions it gives are exported, have names that were not
/// generated before, and have pairwise different names.
pub proof fn lemma_definitions_outcome(
    generated: Seq<Seq<char>>,
    entries: Seq<(Seq<char>, SchemaModel)>,
    inc: ParseOptions,
)
    ensures
        ({
            let (after, result) = definitions_outcome(generated, entries, inc);
            &&& generated.len() <= after.len()
            &&& after.take(generated.len() as int) == generated
            &&& result matches Ok(ds) ==> {
                &&& forall|i: int| 0 <= i < ds.len() ==> #[trigger] ds[i].exported
                &&& forall|i: int| 0 <= i < ds.len() ==> !generated.contains(#[trigger] ds[i].name)
                &&& forall|i: int, j: int|
                    0 <= i < j < ds.len() ==> #[trigger] ds[i].name != #[trigger] ds[j].name
            }
        }),
    decreases entries.len(),
{
    if entries.len() > 0 {
        let name = pascal_case(entries[0].0);
        if generated.contains(name) {
            lemma_definitions_outcome(generated, entries.drop_first(), inc);
        } else {
            let g1 = generated.push(name);
            lemma_type_def_result(entries[0].1, name, inc);
            assert(g1.take(generated.len() as int) == generated);
            match type_def_result(entries[0].1, name, inc) {
                Err(_) => {},
                Ok(d) => {
                    lemma_definitions_outcome(g1, entries.drop_first(), inc);
                    let (after, result) = definitions_outcome(g1, entries.drop_first(), inc);
                    assert(after.take(generated.len() as int) == after.take(g1.len() as int).take(
                        generated.len() as int,
                    ));
                    match result {
                        Err(_) => {},
                        Ok(rest) => {
                            let ds = seq![d] + rest;
                            assert forall|i: int| 0 <= i < ds.len() implies !generated.contains(
                                #[trigger] ds[i].name,
                            ) by {
                                if i > 0 {
                                    assert(ds[i] == rest[i - 1]);
                                    if generated.contains(ds[i].name) {
                                        let k = choose|k: int|
                                            0 <= k < generated.len() && generated[k] == ds[i].name;
                                        assert(g1[k] == ds[i].name);
                                    }
                                }
                            }
                            assert forall|i: int, j: int|
                                0 <= i < j < ds.len() implies #[trigger] ds[i].name
                                != #[trigger] ds[j].name by {
                                assert(ds[j] == rest[j - 1]);
                                if i == 0 {
                                    assert(g1[generated.len() as int] == name);
                                } else {
                                    assert(ds[i] == rest[i - 1]);
                                }
                            }
                            assert forall|i: int| 0 <= i < ds.len() implies #[trigger] ds[i].exported by {
                                if i > 0 {
                                    assert(ds[i] == rest[i - 1]);
                                }
                            }
                        },
                    }
                },
            }
        }
    }
}

/// Law: a parsed module has a root type named after the PascalCase root type
/// name, and every type in it is exported; each definition type has a name
/// that differs from the root's, from every name generated by earlier parses,
/// and from the names of the other definitions.
pub proof fn law_parse_names(st: ParserModel, s: SchemaModel)
    ensures
        parse_outcome(st, s).1 matches Ok(m) ==> {
            &&& m.root_type matches Some(root)
            &&& root.name == pascal_case(st.root_type_name)
            &&& root.exported
            &&& forall|i: int| 0 <= i < m.definitions.len() ==> #[trigger] m.definitions[i].exported
            &&& forall|i: int|
                0 <= i < m.definitions.len() ==> #[trigger] m.definitions[i].name != root.name
            &&& forall|i: int|
                0 <= i < m.definitions.len() ==> !st.generated.contains(
                    #[trigger] m.definitions[i].name,
                )
            &&& forall|i: int, j: int|
                0 <= i < j < m.definitions.len() ==> #[trigger] m.definitions[i].name
                    != #[trigger] m.definitions[j].name
        },
{
    let definitions = extracted_definitions(st.definitions, s);
    let root_name = pascal_case(st.root_type_name);
    let generated = st.generated.push(root_name);
    lemma_type_def_result(s, root_name, model_options(st));
    lemma_definitions_outcome(generated, definitions, model_options(st));
    if let Ok(m) = parse_outcome(st, s).1 {
        assert forall|i: int| 0 <= i < m.definitions.len() implies #[trigger] m.definitions[i].name
            != root_name && !st.generated.contains(m.definitions[i].name) by {
            assert(generated[st.generated.len() as int] == root_name);
            if st.generated.contains(m.definitions[i].name) {
                let k = choose|k: int|
                    0 <= k < st.generated.len() && st.generated[k] == m.definitions[i].name;
                assert(generated[k] == m.definitions[i].name);
            }
        }
    }
}

/// The definition at `k` has its PascalCase name generated before or given
/// to one of the type definitions.
proof fn lemma_definition_named(
    generated: Seq<Seq<char>>,
    entries: Seq<(Seq<char>, SchemaModel)>,
    inc: ParseOptions,
    k: int,
)
    requires
        0 <= k < entries.len(),
        definitions_outcome(generated, entries, inc).1 is Ok,
    ensures
        generated.contains(pascal_case(entries[k].0)) || exists|i: int|
            0 <= i < definitions_outcome(generated, entries, inc).1->Ok_0.len()
                && definitions_outcome(generated, entries, inc).1->Ok_0[i].name == pascal_case(
                entries[k].0,
            ),
    decreases entries.len(),
{
    let name = pascal_case(entries[0].0);
    let rest_entries = entries.drop_first();
    let pk = pascal_case(entries[k].0);
    if generated.contains(name) {
        if k > 0 {
            assert(entries[k] == rest_entries[k - 1]);
            lemma_definition_named(generated, rest_entries, inc, k - 1);
        }
    } else {
        let g1 = generated.push(name);
        let d = type_def_result(entries[0].1, name, inc)->Ok_0;
        lemma_type_def_result(entries[0].1, name, inc);
        let rest = definitions_outcome(g1, rest_entries, inc).1->Ok_0;
        let ds = seq![d] + rest;
        assert(definitions_outcome(generated, entries, inc).1->Ok_0 == ds);
        if k == 0 {
            assert(ds[0].name == pk);
        } else {
            assert(entries[k] == rest_entries[k - 1]);
            lemma_definition_named(g1, rest_entries, inc, k - 1);
            if g1.contains(pk) {
                let j = choose|j: int| 0 <= j < g1.len() && g1[j] == pk;
                if j < generated.len() {
                    assert(generated[j] == pk);
                } else {
                    assert(ds[0].name == pk);
                }
            } else {
                let i = choose|i: int| 0 <= i < rest.len() && rest[i].name == pk;
                assert(ds[i + 1] == rest[i]);
            }
        }
    }
}

/// Law: every collected definition is exported as a type of its own: its
/// PascalCase name is the root's, one generated by an earlier parse, or the
/// name of one of the module's definitions.
pub proof fn law_parse_exports_definitions(st: ParserModel, s: SchemaModel)
    ensures
        parse_outcome(st, s).1 matches Ok(m) ==> {
            let defs = extracted_definitions(st.definitions, s);
            forall|k: int|
                0 <= k < defs.len() ==> {
                    let name = #[trigger] pascal_case(defs[k].0);
                    ||| name == pascal_case(st.root_type_name)
                    ||| st.generated.contains(name)
                    ||| exists|i: int|
                        0 <= i < m.definitions.len() && m.definitions[i].name == name
                }
        },
{
    let definitions = extracted_definitions(st.definitions, s);
    let root_name = pascal_case(st.root_type_name);
    let generated = st.generated.push(root_name);
    if let Ok(m) = parse_outcome(st, s).1 {
        assert forall|k: int| 0 <= k < definitions.len() implies {
            let name = #[trigger] pascal_case(definitions[k].0);
            ||| name == root_name
            ||| st.generated.contains(name)
            ||| exists|i: int| 0 <= i < m.definitions.len() && m.definitions[i].name == name
        } by {
            let name = pascal_case(definitions[k].0);
            let root = type_def_result(s, root_name, model_options(st));
            assert(root is Ok);
            let (g2, r2) = definitions_outcome(generated, definitions, model_options(st));
            assert(r2 == Ok::<Seq<TypeDefModel>, ErrorModel>(m.definitions));
            lemma_definition_named(generated, definitions, model_options(st), k);
            if generated.contains(name) {
                let j = choose|j: int| 0 <= j < generated.len() && generated[j] == name;
                if j < st.generated.len() {
                    assert(st.generated[j] == name);
                }
            }
        }
    }
}

/// Law: parsing keeps the configuration, collects the schema's definitions,
/// and only adds to the names generated so far, beginning with the root's.
pub proof fn law_parse_state(st: ParserModel, s: SchemaModel)
    ensures
        ({
            let after = parse_outcome(st, s).0;
            &&& after.root_type_name == st.root_type_name
            &&& after.include_constraints == st.include_constraints
            &&& after.include_descriptions == st.include_descriptions
            &&& after.definitions == extracted_definitions(st.definitions, s)
            &&& after.generated.len() > st.generated.len()
            &&& after.generated.take(st.generated.len() + 1int) == st.generated.push(
                pascal_case(st.root_type_name),
            )
        }),
{
    let definitions = extracted_definitions(st.definitions, s);
    let generated = st.generated.push(pascal_case(st.root_type_name));
    lemma_definitions_outcome(generated, definitions, model_options(st));
}

/// A parsed property carries the name it was parsed under.
pub proof fn lemma_property_outcome_name(name: Seq<char>, s: SchemaModel, inc: ParseOptions)
    ensures
        property_outcome(name, s, inc) matches Ok(pm) ==> pm.name == name,
{
}

/// Law: when the properties of an object are listed without error, each
/// keeps its name and position, and it is optional exactly when its name is
/// not among the required names.
pub proof fn law_required_properties(
    entries: Seq<(Seq<char>, SchemaModel)>,
    required: Seq<Seq<char>>,
    inc: ParseOptions,
)
    ensures
        collect_properties(property_outcomes(entries, inc), required) matches Ok(ps) ==> {
            &&& ps.len() == entries.len()
            &&& forall|i: int| 0 <= i < ps.len() ==> #[trigger] ps[i].name == entries[i].0
            &&& forall|i: int|
                0 <= i < ps.len() ==> #[trigger] ps[i].optional == !required.contains(entries[i].0)
        },
    decreases entries.len(),
{
    lemma_property_outcomes(entries, inc);
    if entries.len() > 0 {
        law_required_properties(entries.drop_last(), required, inc);
        let p = property_outcomes(entries, inc);
        assert(p.drop_last() == property_outcomes(entries.drop_last(), inc));
        lemma_property_outcome_name(entries.last().0, entries.last().1, inc);
        if let Ok(ps) = collect_properties(p, required) {
            assert forall|i: int| 0 <= i < ps.len() implies #[trigger] ps[i].name == entries[i].0
                && ps[i].optional == !required.contains(entries[i].0) by {
                if i < ps.len() - 1 {
                    assert(entries.drop_last()[i] == entries[i]);
                }
            }
        }
    }
}

/// Law: a `const` of `true` or `false` is the literal type of that value.
pub proof fn law_const_boolean(o: SchemaObjectModel, b: bool, inc: ParseOptions)
    requires
        o.ref_ is None,
        o.enum_ is None,
        o.const_ == Some(JsonValueModel::Bool(b)),
    ensures
        object_type(o, inc) == Ok::<TypeModel, ErrorModel>(TypeModel::BooleanLiteral(b)),
{
}

/// Law: a schema whose type is `array` is an array type: of `any` without
/// `items`, else of the type of `items` (or the error parsing it gives).
pub proof fn law_array_type(o: SchemaObjectModel, inc: ParseOptions)
    requires
        o.ref_ is None,
        o.enum_ is None,
        o.const_ is None,
        o.all_of is None,
        o.any_of is None,
        o.one_of is None,
        o.type_ == Some(SchemaTypeModel::Single(SingleType::Array)) || o.type_ == Some(
            SchemaTypeModel::Multiple(seq![SingleType::Array]),
        ),
    ensures
        o.items is None ==> object_type(o, inc) == Ok::<TypeModel, ErrorModel>(
            TypeModel::Array(Box::new(TypeModel::Any)),
        ),
        o.items matches Some(b) ==> match schema_type(*b, inc) {
            Ok(e) => object_type(o, inc) == Ok::<TypeModel, ErrorModel>(
                TypeModel::Array(Box::new(e)),
            ),
            Err(e) => object_type(o, inc) == Err::<TypeModel, ErrorModel>(e),
        },
{
    assert(single_types(o.type_->0) == seq![SingleType::Array]);
}

/// Law: `additionalProperties: true` allows extra keys of any type and
/// `false` allows none.
pub proof fn law_additional_boolean(b: bool, inc: ParseOptions)
    ensures
        additional_type(AdditionalSchemaModel::Boolean(b), inc) == Ok::<AdditionalModel, ErrorModel>(
            if b {
                AdditionalModel::Any
            } else {
                AdditionalModel::False
            },
        ),
{
}

/// Law: an object type with properties and `additionalProperties: true`
/// (`false`) is an object with (without) an indexer of `any`.
pub proof fn law_object_additional_boolean(o: SchemaObjectModel, b: bool, inc: ParseOptions)
    requires
        o.ref_ is None,
        o.enum_ is None,
        o.const_ is None,
        o.all_of is None,
        o.any_of is None,
        o.one_of is None,
        o.type_ == Some(SchemaTypeModel::Single(SingleType::Object)),
        o.properties matches Some(p) && p.len() > 0,
        o.additional_properties == Some(AdditionalSchemaModel::Boolean(b)),
    ensures
        object_type(o, inc) matches Ok(t) ==> t matches TypeModel::Object(om)
            && om.additional_properties == Some(
            if b {
                AdditionalModel::Any
            } else {
                AdditionalModel::False
            },
        ),
{
    let p = o.properties->0;
    let outs = property_outcomes(p, inc);
    let req = required_names(o);
    law_required_properties(p, req, inc);
    lemma_property_outcomes(p, inc);
    assert(single_types(o.type_->0) == seq![SingleType::Object]);
    assert(object_type(o, inc) == rest_type(o, Some(outs), req, inc));
    assert(rest_type(o, Some(outs), req, inc) == single_type(o, SingleType::Object, Some(outs), req, inc));
    assert(single_type(o, SingleType::Object, Some(outs), req, inc) == object_shape(o, Some(outs), req, inc));
    let am = if b {
        AdditionalModel::Any
    } else {
        AdditionalModel::False
    };
    assert(additional_type(AdditionalSchemaModel::Boolean(b), inc) == Ok::<AdditionalModel, ErrorModel>(am));
    if let Ok(ps) = collect_properties(outs, req) {
        assert(ps.len() > 0);
        assert(object_shape(o, Some(outs), req, inc) == Ok::<TypeModel, ErrorModel>(shape_of(ps, Some(am))));
    }
}

/// Law: a property keeps each constraint keyword of its schema under its own
/// name when constraints are kept, and none when they are not.
pub proof fn law_property_constraints(name: Seq<char>, o: SchemaObjectModel, inc: ParseOptions)
    ensures
        property_outcome(name, SchemaModel::Object(o), inc) matches Ok(pm) ==> {
            let c = pm.constraints;
            if inc.constraints {
                &&& c.minimum == o.minimum
                &&& c.maximum == o.maximum
                &&& c.exclusive_minimum == o.exclusive_minimum
                &&& c.exclusive_maximum == o.exclusive_maximum
                &&& c.multiple_of == o.multiple_of
                &&& c.min_length == o.min_length
                &&& c.max_length == o.max_length
                &&& c.pattern == o.pattern
                &&& c.format == o.format
                &&& c.min_items == o.min_items
                &&& c.max_items == o.max_items
                &&& (c.unique_items == Some(true) <==> o.unique_items == Some(true))
                &&& (c.unique_items is Some ==> c.unique_items == Some(true))
                &&& c.min_properties == o.min_properties
                &&& c.max_properties == o.max_properties
            } else {
                c == no_constraints()
            }
        },
{
}

/// Law: the root type definition keeps each constraint keyword of its schema
/// under its own name when constraints are kept.
pub proof fn law_type_def_constraints(name: Seq<char>, o: SchemaObjectModel, inc: ParseOptions)
    ensures
        type_def_result(SchemaModel::Object(o), name, inc) matches Ok(d) ==> {
            let c = d.constraints;
            if inc.constraints {
                &&& c.minimum == o.minimum
                &&& c.maximum == o.maximum
                &&& c.exclusive_minimum == o.exclusive_minimum
                &&& c.exclusive_maximum == o.exclusive_maximum
                &&& c.multiple_of == o.multiple_of
                &&& c.min_length == o.min_length
                &&& c.max_length == o.max_length
                &&& c.pattern == o.pattern
                &&& c.format == o.format
                &&& c.min_items == o.min_items
                &&& c.max_items == o.max_items
                &&& (c.unique_items == Some(true) <==> o.unique_items == Some(true))
                &&& (c.unique_items is Some ==> c.unique_items == Some(true))
                &&& c.min_properties == o.min_properties
                &&& c.max_properties == o.max_properties
            } else {
                c == no_constraints()
            }
        },
{
}

/// Whether a `required` keyword lists `name`.
pub open spec fn lists_required(r: Option<Seq<Seq<char>>>, name: Seq<char>) -> bool {
    match r {
        Some(v) => v.contains(name),
        None => false,
    }
}

/// Whether a member of an `allOf` is an object without `$ref` whose
/// `required` lists `name`.
pub open spec fn member_requires(s: SchemaModel, name: Seq<char>) -> bool {
    match s {
        SchemaModel::Object(so) => so.ref_ is None && lists_required(so.required, name),
        SchemaModel::Boolean(_) => false,
    }
}

/// A parsed property carries the name it is filed under.
pub open spec fn outcome_named(e: (Seq<char>, PropertyOutcome)) -> bool {
    match e.1 {
        Ok(pm) => pm.name == e.0,
        Err(_) => true,
    }
}

/// Every parsed property carries the name it is filed under.
pub open spec fn outcomes_named(p: Seq<(Seq<char>, PropertyOutcome)>) -> bool {
    forall|i: int| 0 <= i < p.len() ==> outcome_named(#[trigger] p[i])
}

proof fn lemma_property_outcomes_named(e: Seq<(Seq<char>, SchemaModel)>, inc: ParseOptions)
    ensures
        outcomes_named(property_outcomes(e, inc)),
{
    lemma_property_outcomes(e, inc);
    assert forall|i: int| 0 <= i < property_outcomes(e, inc).len() implies outcome_named(
        #[trigger] property_outcomes(e, inc)[i],
    ) by {
        lemma_property_outcome_name(e[i].0, e[i].1, inc);
    }
}

proof fn lemma_map_insert_named(
    e: Seq<(Seq<char>, PropertyOutcome)>,
    k: Seq<char>,
    v: PropertyOutcome,
)
    requires
        outcomes_named(e),
        outcome_named((k, v)),
    ensures
        outcomes_named(map_insert(e, k, v)),
    decreases e.len(),
{
    let m = map_insert(e, k, v);
    if e.len() == 0 {
        assert(m[0] == (k, v));
    } else if e[0].0 == k {
        assert forall|i: int| 0 <= i < m.len() implies outcome_named(#[trigger] m[i]) by {
            if i > 0 {
                assert(m[i] == e[i]);
            }
        }
    } else if lex_lt(k, e[0].0) {
        assert forall|i: int| 0 <= i < m.len() implies outcome_named(#[trigger] m[i]) by {
            if i > 0 {
                assert(m[i] == e[i - 1]);
            }
        }
    } else {
        let rest = e.drop_first();
        assert forall|i: int| 0 <= i < rest.len() implies outcome_named(#[trigger] rest[i]) by {
            assert(rest[i] == e[i + 1]);
        }
        lemma_map_insert_named(rest, k, v);
        let mr = map_insert(rest, k, v);
        assert(m == seq![e[0]] + mr);
        assert forall|i: int| 0 <= i < m.len() implies outcome_named(#[trigger] m[i]) by {
            if i > 0 {
                assert(m[i] == mr[i - 1]);
            } else {
                assert(m[0] == e[0]);
            }
        }
    }
}

proof fn lemma_insert_all_named(
    acc: Seq<(Seq<char>, PropertyOutcome)>,
    items: Seq<(Seq<char>, PropertyOutcome)>,
)
    requires
        outcomes_named(acc),
        outcomes_named(items),
    ensures
        outcomes_named(insert_all(acc, items)),
    decreases items.len(),
{
    if items.len() > 0 {
        let front = items.drop_last();
        assert forall|i: int| 0 <= i < front.len() implies outcome_named(#[trigger] front[i]) by {
            assert(front[i] == items[i]);
        }
        lemma_insert_all_named(acc, front);
        assert(outcome_named(items[items.len() - 1]));
        lemma_map_insert_named(insert_all(acc, front), items.last().0, items.last().1);
    }
}

proof fn lemma_merge_named(
    acc: Seq<(Seq<char>, PropertyOutcome)>,
    subs: Seq<SchemaModel>,
    inc: ParseOptions,
)
    requires
        outcomes_named(acc),
    ensures
        outcomes_named(merge_sub_properties(acc, subs, inc)),
    decreases subs.len(),
{
    if subs.len() > 0 {
        lemma_merge_named(acc, subs.drop_last(), inc);
        let prev = merge_sub_properties(acc, subs.drop_last(), inc);
        if let SchemaModel::Object(so) = subs.last() {
            if so.ref_ is None && so.properties is Some {
                lemma_property_outcomes_named(so.properties->0, inc);
                lemma_insert_all_named(prev, property_outcomes(so.properties->0, inc));
            }
        }
    }
}

proof fn lemma_collect_named(p: Seq<(Seq<char>, PropertyOutcome)>, required: Seq<Seq<char>>)
    requires
        outcomes_named(p),
    ensures
        collect_properties(p, required) matches Ok(ps) ==> forall|i: int|
            0 <= i < ps.len() ==> (#[trigger] ps[i]).optional == !required.contains(ps[i].name),
    decreases p.len(),
{
    if p.len() > 0 {
        let front = p.drop_last();
        assert forall|i: int| 0 <= i < front.len() implies outcome_named(#[trigger] front[i]) by {
            assert(front[i] == p[i]);
        }
        lemma_collect_named(front, required);
        assert(outcome_named(p[p.len() - 1]));
    }
}

proof fn lemma_concat_contains(a: Seq<Seq<char>>, b: Seq<Seq<char>>, x: Seq<char>)
    ensures
        (a + b).contains(x) <==> a.contains(x) || b.contains(x),
{
    let c = a + b;
    if c.contains(x) {
        let i = choose|i: int| 0 <= i < c.len() && c[i] == x;
        if i < a.len() {
            assert(a[i] == x);
        } else {
            assert(b[i - a.len()] == x);
        }
    }
    if a.contains(x) {
        let i = choose|i: int| 0 <= i < a.len() && a[i] == x;
        assert(c[i] == x);
    }
    if b.contains(x) {
        let i = choose|i: int| 0 <= i < b.len() && b[i] == x;
        assert(c[i + a.len()] == x);
    }
}

proof fn lemma_sub_required_contains(subs: Seq<SchemaModel>, x: Seq<char>)
    ensures
        sub_required(subs).contains(x) <==> exists|j: int|
            0 <= j < subs.len() && member_requires(#[trigger] subs[j], x),
    decreases subs.len(),
{
    if subs.len() > 0 {
        let front = subs.drop_last();
        lemma_sub_required_contains(front, x);
        let prev = sub_required(front);
        let last = subs.last();
        if exists|j: int| 0 <= j < front.len() && member_requires(#[trigger] front[j], x) {
            let j = choose|j: int| 0 <= j < front.len() && member_requires(#[trigger] front[j], x);
            assert(subs[j] == front[j]);
        }
        if exists|j: int| 0 <= j < subs.len() && member_requires(#[trigger] subs[j], x) {
            let j = choose|j: int| 0 <= j < subs.len() && member_requires(#[trigger] subs[j], x);
            if j < front.len() {
                assert(front[j] == subs[j]);
            }
        }
        match last {
            SchemaModel::Object(so) => if so.ref_ is None {
                lemma_concat_contains(prev, required_names(so), x);
            },
            SchemaModel::Boolean(_) => {},
        }
    }
}

proof fn lemma_sub_refs_none(subs: Seq<SchemaModel>)
    requires
        forall|j: int|
            0 <= j < subs.len() ==> !(#[trigger] subs[j] matches SchemaModel::Object(so)
                && so.ref_ is Some),
    ensures
        sub_refs(subs) == Ok::<Seq<TypeModel>, ErrorModel>(Seq::empty()),
    decreases subs.len(),
{
    if subs.len() > 0 {
        let front = subs.drop_last();
        assert forall|j: int| 0 <= j < front.len() implies !(#[trigger] front[j] matches SchemaModel::Object(so)
            && so.ref_ is Some) by {
            assert(front[j] == subs[j]);
        }
        lemma_sub_refs_none(front);
        assert(!(subs[subs.len() - 1] matches SchemaModel::Object(so) && so.ref_ is Some));
    }
}

/// Law: when an `allOf` without `$ref` members is merged into an object that
/// has properties, `additionalProperties` or `required` of its own, a
/// property of the resulting object is required exactly when its name is in
/// the object's own `required` or in the `required` of one of the members.
pub proof fn law_merged_required(o: SchemaObjectModel, inc: ParseOptions)
    requires
        o.ref_ is None,
        o.enum_ is None,
        o.const_ is None,
        o.all_of is Some,
        has_parent_props(o),
        o.any_of is None,
        o.one_of is None,
        o.type_ is None || o.type_ == Some(SchemaTypeModel::Single(SingleType::Object)),
        forall|j: int|
            0 <= j < o.all_of->0.len() ==> !(#[trigger] o.all_of->0[j] matches SchemaModel::Object(
                so,
            ) && so.ref_ is Some),
    ensures
        object_type(o, inc) matches Ok(TypeModel::Object(om)) ==> forall|i: int|
            0 <= i < om.properties.len() ==> (#[trigger] om.properties[i]).optional == !(
            lists_required(o.required, om.properties[i].name) || exists|j: int|
                0 <= j < o.all_of->0.len() && member_requires(
                    #[trigger] o.all_of->0[j],
                    om.properties[i].name,
                )),
{
    let subs = o.all_of->0;
    lemma_sub_refs_none(subs);
    let own = own_outcomes(o, inc);
    if let Some(p) = o.properties {
        lemma_property_outcomes_named(p, inc);
    }
    assert(outcomes_named(own));
    let merged = merge_sub_properties(own, subs, inc);
    lemma_merge_named(own, subs, inc);
    let req = required_names(o) + sub_required(subs);
    lemma_collect_named(merged, req);
    let props = if merged.len() == 0 {
        None
    } else {
        Some(merged)
    };
    assert(object_type(o, inc) == rest_type(o, props, req, inc));
    if let Ok(TypeModel::Object(om)) = object_type(o, inc) {
        if o.type_ is Some {
            assert(single_types(o.type_->0) == seq![SingleType::Object]);
            assert(rest_type(o, props, req, inc) == single_type(o, SingleType::Object, props, req, inc));
        }
        assert(rest_type(o, props, req, inc) == object_shape(o, props, req, inc));
        let listed = match props {
            Some(pp) => collect_properties(pp, req),
            None => Ok(Seq::empty()),
        };
        let ps = listed->Ok_0;
        assert(om.properties == ps);
        assert forall|i: int| 0 <= i < om.properties.len() implies (#[trigger] om.properties[i]).optional
            == !(lists_required(o.required, om.properties[i].name) || exists|j: int|
            0 <= j < subs.len() && member_requires(#[trigger] subs[j], om.properties[i].name)) by {
            let x = om.properties[i].name;
            lemma_concat_contains(required_names(o), sub_required(subs), x);
            lemma_sub_required_contains(subs, x);
        }
    }
}

/// Law: a schema whose type is one primitive type name is that Luau
/// primitive: `string`, `number` for both `number` and `integer`, `boolean`,
/// and `nil` for `null`.
pub proof fn law_primitive_types(o: SchemaObjectModel, t: SingleType, inc: ParseOptions)
    requires
        o.ref_ is None,
        o.enum_ is None,
        o.const_ is None,
        o.all_of is None,
        o.any_of is None,
        o.one_of is None,
        o.type_ == Some(SchemaTypeModel::Single(t)),
        t != SingleType::Array,
        t != SingleType::Object,
    ensures
        object_type(o, inc) == Ok::<TypeModel, ErrorModel>(
            match t {
                SingleType::String => TypeModel::String,
                SingleType::Boolean => TypeModel::Boolean,
                SingleType::Null => TypeModel::Nil,
                _ => TypeModel::Number,
            },
        ),
{
    assert(single_types(o.type_->0) == seq![t]);
}

/// Law: an `enum` of numbers only is `number`; an `enum` of two or more
/// strings only is the union of their string literals in the order given; an
/// `enum` of one string is that literal; any other `enum` is the union of
/// `string`, `number`, `boolean` and `nil`.
pub proof fn law_enum_types(vs: Seq<JsonValueModel>)
    ensures
        (forall|i: int| 0 <= i < vs.len() ==> #[trigger] vs[i] is Number) ==> enum_type(vs)
            == TypeModel::Number,
        vs.len() >= 2 && (forall|i: int| 0 <= i < vs.len() ==> #[trigger] vs[i] is String)
            ==> enum_type(vs) == TypeModel::EnumUnion(
            Seq::new(vs.len(), |i: int| TypeModel::StringLiteral(vs[i]->String_0)),
        ),
        vs.len() == 1 && vs[0] is String ==> enum_type(vs) == TypeModel::StringLiteral(
            vs[0]->String_0,
        ),
        (exists|i: int| 0 <= i < vs.len() && !(#[trigger] vs[i] is Number))
            && (exists|j: int| 0 <= j < vs.len() && !(#[trigger] vs[j] is String))
            ==> enum_type(vs) == TypeModel::EnumUnion(
            seq![TypeModel::String, TypeModel::Number, TypeModel::Boolean, TypeModel::Nil],
        ),
{
    if vs.len() >= 2 && (forall|i: int| 0 <= i < vs.len() ==> #[trigger] vs[i] is String) {
        assert(!all_numbers(vs)) by {
            assert(vs[0] is String);
        }
        assert(vs.map_values(|v: JsonValueModel| string_literal_of(v)) =~= Seq::new(
            vs.len(),
            |i: int| TypeModel::StringLiteral(vs[i]->String_0),
        ));
    }
    if vs.len() == 1 && vs[0] is String {
        assert(!all_numbers(vs)) by {
            assert(vs[0] is String);
        }
        assert(all_strings(vs));
    }
}

/// Law: a `$ref` of the form `#/definitions/N` or `#/$defs/N` is a
/// reference to the PascalCase form of `N`; a `$ref` of neither form is
/// refused with an error that names it.
pub proof fn law_ref_targets(name: Seq<char>, path: Seq<char>)
    ensures
        ref_result("#/definitions/"@ + name) == Ok::<TypeModel, ErrorModel>(
            TypeModel::Reference(pascal_case(name)),
        ),
        ref_result("#/$defs/"@ + name) == Ok::<TypeModel, ErrorModel>(
            TypeModel::Reference(pascal_case(name)),
        ),
        !starts_with(path, "#/definitions/"@) && !starts_with(path, "#/$defs/"@) ==> ref_result(
            path,
        ) == Err::<TypeModel, ErrorModel>(ErrorModel::UnsupportedRef { ref_path: path }),
{
    let d = "#/definitions/"@;
    let f = "#/$defs/"@;
    reveal_strlit("#/definitions/");
    reveal_strlit("#/$defs/");
    assert((d + name).take(d.len() as int) =~= d);
    assert((d + name).skip(d.len() as int) =~= name);
    assert((f + name).take(f.len() as int) =~= f);
    assert((f + name).skip(f.len() as int) =~= name);
    assert(!starts_with(f + name, d)) by {
        if f.len() + name.len() >= d.len() {
            assert((f + name)[2] != d[2]);
        }
    }
}

/// Law: when every schema of a list parses, the list parses to their types
/// in order; when one fails, the list fails with the first error.
pub proof fn law_schemas_types(subs: Seq<SchemaModel>, ts: Seq<TypeModel>, inc: ParseOptions)
    ensures
        ts.len() == subs.len() && (forall|i: int|
            0 <= i < subs.len() ==> schema_type(#[trigger] subs[i], inc) == Ok::<
                TypeModel,
                ErrorModel,
            >(ts[i])) ==> schemas_types(subs, inc) == Ok::<Seq<TypeModel>, ErrorModel>(ts),
        forall|k: int|
            0 <= k < subs.len() && schema_type(#[trigger] subs[k], inc) is Err && (forall|i: int|
                0 <= i < k ==> schema_type(#[trigger] subs[i], inc) is Ok) ==> schemas_types(
                subs,
                inc,
            ) == Err::<Seq<TypeModel>, ErrorModel>(schema_type(subs[k], inc)->Err_0),
    decreases subs.len(),
{
    if subs.len() > 0 {
        let front = subs.drop_last();
        law_schemas_types(front, ts.drop_last(), inc);
        if ts.len() == subs.len() && (forall|i: int|
            0 <= i < subs.len() ==> schema_type(#[trigger] subs[i], inc) == Ok::<
                TypeModel,
                ErrorModel,
            >(ts[i])) {
            assert forall|i: int| 0 <= i < front.len() implies schema_type(#[trigger] front[i], inc)
                == Ok::<TypeModel, ErrorModel>(ts.drop_last()[i]) by {
                assert(front[i] == subs[i]);
            }
            assert(schema_type(subs[subs.len() - 1], inc) == Ok::<TypeModel, ErrorModel>(
                ts[ts.len() - 1],
            ));
            assert(schemas_types(front, inc) == Ok::<Seq<TypeModel>, ErrorModel>(ts.drop_last()));
            assert(ts.drop_last().push(ts.last()) =~= ts);
        }
        assert forall|k: int|
            0 <= k < subs.len() && schema_type(#[trigger] subs[k], inc) is Err && (forall|i: int|
                0 <= i < k ==> schema_type(#[trigger] subs[i], inc) is Ok) implies schemas_types(
            subs,
            inc,
        ) == Err::<Seq<TypeModel>, ErrorModel>(schema_type(subs[k], inc)->Err_0) by {
            if k < subs.len() - 1 {
                assert(front[k] == subs[k]);
                assert forall|i: int| 0 <= i < k implies schema_type(#[trigger] front[i], inc) is Ok by {
                    assert(front[i] == subs[i]);
                }
            } else {
                lemma_schemas_types_all_ok(front, inc);
                assert forall|i: int| 0 <= i < front.len() implies schema_type(#[trigger] front[i], inc) is Ok by {
                    assert(front[i] == subs[i]);
                }
            }
        }
    } else if ts.len() == 0 {
        assert(ts =~= Seq::<TypeModel>::empty());
    }
}

/// A list of schemas that each parse parses without error.
proof fn lemma_schemas_types_all_ok(subs: Seq<SchemaModel>, inc: ParseOptions)
    ensures
        (forall|i: int| 0 <= i < subs.len() ==> schema_type(#[trigger] subs[i], inc) is Ok)
            ==> schemas_types(subs, inc) is Ok,
    decreases subs.len(),
{
    if subs.len() > 0 {
        let front = subs.drop_last();
        lemma_schemas_types_all_ok(front, inc);
        if forall|i: int| 0 <= i < subs.len() ==> schema_type(#[trigger] subs[i], inc) is Ok {
            assert forall|i: int| 0 <= i < front.len() implies schema_type(#[trigger] front[i], inc) is Ok by {
                assert(front[i] == subs[i]);
            }
            assert(schema_type(subs[subs.len() - 1], inc) is Ok);
        }
    }
}

/// Each schema of a list parses, to the type at the same place of `ts`.
pub open spec fn members_parse(subs: Seq<SchemaModel>, ts: Seq<TypeModel>, inc: ParseOptions) -> bool {
    ts.len() == subs.len() && forall|i: int|
        0 <= i < subs.len() ==> schema_type(#[trigger] subs[i], inc) == Ok::<TypeModel, ErrorModel>(
            ts[i],
        )
}

/// Law: `anyOf` and `oneOf` are the union of the types of their members, and
/// an `allOf` beside no properties, `additionalProperties` or `required` of
/// the object's own is their intersection.
pub proof fn law_compositions(o: SchemaObjectModel, ts: Seq<TypeModel>, inc: ParseOptions)
    requires
        o.ref_ is None,
        o.enum_ is None,
        o.const_ is None,
    ensures
        o.all_of is Some && !has_parent_props(o) && members_parse(o.all_of->0, ts, inc)
            ==> object_type(o, inc) == Ok::<TypeModel, ErrorModel>(intersection_of(ts)),
        o.all_of is None && o.any_of is Some && members_parse(o.any_of->0, ts, inc) ==> object_type(
            o,
            inc,
        ) == Ok::<TypeModel, ErrorModel>(union_of(ts)),
        o.all_of is None && o.any_of is None && o.one_of is Some && members_parse(
            o.one_of->0,
            ts,
            inc,
        ) ==> object_type(o, inc) == Ok::<TypeModel, ErrorModel>(union_of(ts)),
{
    if let Some(subs) = o.all_of {
        law_schemas_types(subs, ts, inc);
    }
    if let Some(subs) = o.any_of {
        law_schemas_types(subs, ts, inc);
    }
    if let Some(subs) = o.one_of {
        law_schemas_types(subs, ts, inc);
    }
}

// ---------------------------------------------------------------------------
// Models of executable results
// ---------------------------------------------------------------------------

/// The model of a parsed type or of the error.
pub open spec fn type_result(r: Result<Type, ConversionError>) -> Result<TypeModel, ErrorModel> {
    match r {
        Ok(t) => Ok(t@),
        Err(e) => Err(e@),
    }
}

/// The model of parsed types or of the error.
pub open spec fn types_result(r: Result<Vec<Type>, ConversionError>) -> Result<Seq<TypeModel>, ErrorModel> {
    match r {
        Ok(v) => Ok(types_model(v@)),
        Err(e) => Err(e@),
    }
}

/// The model of a parsed property or of the error.
pub open spec fn property_result(r: Result<Property, ConversionError>) -> PropertyOutcome {
    match r {
        Ok(p) => Ok(p@),
        Err(e) => Err(e@),
    }
}

/// The model of a type definition or of the error.
pub open spec fn type_def_result_model(r: Result<TypeDef, ConversionError>) -> Result<TypeDefModel, ErrorModel> {
    match r {
        Ok(d) => Ok(d@),
        Err(e) => Err(e@),
    }
}

/// The model of a module or of the error.
pub open spec fn module_result(r: Result<TypeModule, ConversionError>) -> Result<TypeModuleModel, ErrorModel> {
    match r {
        Ok(m) => Ok(m@),
        Err(e) => Err(e@),
    }
}

/// The model of parsed properties or of the error.
pub open spec fn properties_result(r: Result<Vec<Property>, ConversionError>) -> Result<Seq<PropertyModel>, ErrorModel> {
    match r {
        Ok(v) => Ok(properties_model(v@)),
        Err(e) => Err(e@),
    }
}

/// The model of named parse outcomes.
pub open spec fn outcomes_model(v: Seq<(String, Result<Property, ConversionError>)>) -> Seq<
    (Seq<char>, PropertyOutcome),
> {
    v.map_values(|p: (String, Result<Property, ConversionError>)| (p.0@, property_result(p.1)))
}

// ---------------------------------------------------------------------------
// Lemmas
// ---------------------------------------------------------------------------

/// An error among the first `n` properties is the error of all of them.
proof fn lemma_collect_prefix_error(
    p: Seq<(Seq<char>, PropertyOutcome)>,
    n: int,
    required: Seq<Seq<char>>,
)
    requires
        0 <= n <= p.len(),
        collect_properties(p.take(n), required) is Err,
    ensures
        collect_properties(p, required) == collect_properties(p.take(n), required),
    decreases p.len() - n,
{
    if n < p.len() {
        assert(p.take(n + 1).drop_last() == p.take(n));
        lemma_collect_prefix_error(p, n + 1, required);
    } else {
        assert(p.take(n) == p);
    }
}

/// An error among the first `n` members of an `allOf` is the error of all of them.
proof fn lemma_sub_refs_prefix_error(subs: Seq<SchemaModel>, n: int)
    requires
        0 <= n <= subs.len(),
        sub_refs(subs.take(n)) is Err,
    ensures
        sub_refs(subs) == sub_refs(subs.take(n)),
    decreases subs.len() - n,
{
    if n < subs.len() {
        assert(subs.take(n + 1).drop_last() == subs.take(n));
        lemma_sub_refs_prefix_error(subs, n + 1);
    } else {
        assert(subs.take(n) == subs);
    }
}

/// An error among the first `n` schemas is the error of all of them.
proof fn lemma_schemas_types_prefix_error(subs: Seq<SchemaModel>, n: int, inc: ParseOptions)
    requires
        0 <= n <= subs.len(),
        schemas_types(subs.take(n), inc) is Err,
    ensures
        schemas_types(subs, inc) == schemas_types(subs.take(n), inc),
    decreases subs.len() - n,
{
    if n < subs.len() {
        assert(subs.take(n + 1).drop_last() == subs.take(n));
        lemma_schemas_types_prefix_error(subs, n + 1, inc);
    } else {
        assert(subs.take(n) == subs);
    }
}

/// `property_outcomes` parses each entry in place.
proof fn lemma_property_outcomes(e: Seq<(Seq<char>, SchemaModel)>, inc: ParseOptions)
    ensures
        property_outcomes(e, inc).len() == e.len(),
        forall|i: int|
            0 <= i < e.len() ==> #[trigger] property_outcomes(e, inc)[i] == (
                e[i].0,
                property_outcome(e[i].0, e[i].1, inc),
            ),
    decreases e.len(),
{
    if e.len() > 0 {
        lemma_property_outcomes(e.drop_last(), inc);
    }
}

/// The model of named outcomes is their keyed form with each outcome modelled.
proof fn lemma_outcomes_keyed(v: Seq<(String, Result<Property, ConversionError>)>)
    ensures
        outcomes_model(v) == map_entry_values(
            keyed(v),
            |r: Result<Property, ConversionError>| property_result(r),
        ),
{
    assert(outcomes_model(v) =~= map_entry_values(
        keyed(v),
        |r: Result<Property, ConversionError>| property_result(r),
    ));
}

/// The strings of two sequences put together.
proof fn lemma_texts_concat(a: Seq<String>, b: Seq<String>)
    ensures
        texts(a + b) == texts(a) + texts(b),
{
    assert(texts(a + b) =~= texts(a) + texts(b));
}

// ---------------------------------------------------------------------------
// The parser
// ---------------------------------------------------------------------------

/// Model of [`SchemaParser`].
pub struct ParserModel {
    /// The root type name of the configuration.
    pub root_type_name: Seq<char>,
    /// Whether constraints are kept.
    pub include_constraints: bool,
    /// Whether descriptions are kept as comments.
    pub include_descriptions: bool,
    /// The definitions collected so far, ascending by name.
    pub definitions: Seq<(Seq<char>, SchemaModel)>,
    /// The type names generated so far, in the order they were generated.
    pub generated: Seq<Seq<char>>,
}

/// Parser for converting JSON Schema to IR.
pub struct SchemaParser {
    /// Configuration for parsing.
    config: IrConfig,
    /// Collected definitions from the schema.
    definitions: SchemaMap,
    /// The already generated type names.
    generated_types: Vec<String>,
}

impl View for SchemaParser {
    type V = ParserModel;

    closed spec fn view(&self) -> ParserModel {
        ParserModel {
            root_type_name: self.config.root_type_name@,
            include_constraints: self.config.include_constraints,
            include_descriptions: self.config.include_descriptions,
            definitions: self.definitions@,
            generated: texts(self.generated_types@),
        }
    }
}

// ---------------------------------------------------------------------------
// Keywords without sub-schemas
// ---------------------------------------------------------------------------

/// Whether some string of `v` is `s`.
fn contains_text(v: &Vec<String>, s: &str) -> (r: bool)
    ensures
        r == texts(v@).contains(s@),
{
    let mut i: usize = 0;
    while i < v.len()
        invariant
            i <= v@.len(),
            forall|j: int| 0 <= j < i ==> v@[j]@ != s@,
        decreases v@.len() - i,
    {
        if text_eq(v[i].as_str(), s) {
            assert(texts(v@)[i as int] == s@);
            return true;
        }
        i += 1;
    }
    assert(!texts(v@).contains(s@)) by {
        if texts(v@).contains(s@) {
            let j = choose|j: int| 0 <= j < texts(v@).len() && texts(v@)[j] == s@;
            assert(v@[j]@ == s@);
        }
    }
    false
}

/// A copy of the strings.
fn copy_texts(v: &Vec<String>) -> (r: Vec<String>)
    ensures
        texts(r@) == texts(v@),
{
    let mut out: Vec<String> = Vec::new();
    let mut i: usize = 0;
    while i < v.len()
        invariant
            i <= v@.len(),
            out@.len() == i,
            forall|j: int| 0 <= j < i ==> #[trigger] out@[j]@ == v@[j]@,
        decreases v@.len() - i,
    {
        out.push(v[i].clone());
        i += 1;
    }
    assert(texts(out@) =~= texts(v@));
    out
}

/// The required names of an object.
fn required_of(obj: &SchemaObject) -> (r: Vec<String>)
    ensures
        texts(r@) == required_names(obj@),
{
    match &obj.required {
        Some(v) => {
            let r = copy_texts(v);
            assert(texts(v@) =~= v@.map_values(|s: String| s@));
            r
        },
        None => {
            let r: Vec<String> = Vec::new();
            assert(texts(r@) =~= Seq::<Seq<char>>::empty());
            r
        },
    }
}

/// The required names of the members of an `allOf` without `$ref`.
fn sub_required_of(subs: &Vec<JsonSchema>) -> (r: Vec<String>)
    ensures
        texts(r@) == sub_required(schemas_model(subs@)),
{
    proof {
        lemma_schemas_model(subs@);
    }
    let mut out: Vec<String> = Vec::new();
    let mut i: usize = 0;
    while i < subs.len()
        invariant
            i <= subs@.len(),
            schemas_model(subs@).len() == subs@.len(),
            forall|j: int| 0 <= j < subs@.len() ==> #[trigger] schemas_model(subs@)[j] == subs@[j]@,
            texts(out@) == sub_required(schemas_model(subs@).take(i as int)),
        decreases subs@.len() - i,
    {
        let ghost before = out@;
        let ghost ms = schemas_model(subs@).take(i + 1);
        assert(ms.drop_last() == schemas_model(subs@).take(i as int));
        match &subs[i] {
            JsonSchema::Object(so) => {
                if so.ref_.is_none() {
                    let mut req = required_of(so);
                    out.append(&mut req);
                    assert(texts(out@) =~= texts(before) + required_names(so@));
                }
            },
            JsonSchema::Boolean(_) => {},
        }
        i += 1;
    }
    assert(schemas_model(subs@).take(subs@.len() as int) == schemas_model(subs@));
    out
}

impl SchemaParser {
    /// Resolve a `$ref` to a reference to its target, PascalCased.
    ///
    /// Circular references need no care: Luau type aliases may refer to each
    /// other.
    fn resolve_ref(ref_path: &str) -> (r: Result<Type, ConversionError>)
        ensures
            type_result(r) == ref_result(ref_path@),
    {
        let stripped = match strip_prefix(ref_path, "#/definitions/") {
            Some(name) => Some(name),
            None => strip_prefix(ref_path, "#/$defs/"),
        };
        match stripped {
            Some(def_name) => {
                let pascal_name = to_pascal_case(def_name.as_str());
                Ok(Type::reference(pascal_name.as_str()))
            },
            None => Err(ConversionError::unsupported_ref(ref_path)),
        }
    }

    /// The `$ref` members of an `allOf`, or the first error among them.
    fn resolve_sub_refs(subs: &Vec<JsonSchema>) -> (r: Result<Vec<Type>, ConversionError>)
        ensures
            types_result(r) == sub_refs(schemas_model(subs@)),
    {
        proof {
            lemma_schemas_model(subs@);
        }
        let mut out: Vec<Type> = Vec::new();
        let mut i: usize = 0;
        while i < subs.len()
            invariant
                i <= subs@.len(),
                schemas_model(subs@).len() == subs@.len(),
                forall|j: int| 0 <= j < subs@.len() ==> #[trigger] schemas_model(subs@)[j] == subs@[j]@,
                sub_refs(schemas_model(subs@).take(i as int)) == Ok::<Seq<TypeModel>, ErrorModel>(types_model(out@)),
            decreases subs@.len() - i,
        {
            let ghost ms = schemas_model(subs@).take(i + 1);
            assert(ms.drop_last() == schemas_model(subs@).take(i as int));
            match &subs[i] {
                JsonSchema::Object(so) => {
                    if let Some(ref_path) = &so.ref_ {
                        match Self::resolve_ref(ref_path.as_str()) {
                            Ok(t) => {
                                proof {
                                    crate::ir::types::lemma_types_model_push(out@, t);
                                }
                                out.push(t);
                            },
                            Err(e) => {
                                proof {
                                    lemma_sub_refs_prefix_error(schemas_model(subs@), i + 1);
                                }
                                return Err(e);
                            },
                        }
                    }
                },
                JsonSchema::Boolean(_) => {},
            }
            i += 1;
        }
        assert(schemas_model(subs@).take(subs@.len() as int) == schemas_model(subs@));
        Ok(out)
    }
}

impl SchemaParser {
    /// The type of an `enum`: an all-number enum collapses to `number`, an
    /// all-string enum becomes a paren-free union of its string literals in
    /// source order, and any other enum becomes the union of all primitives.
    fn parse_enum(values: &Vec<JsonValue>) -> (r: Type)
        ensures
            r@ == enum_type(json_values_model(values@)),
    {
        let ghost vs = json_values_model(values@);
        proof {
            lemma_json_values_model(values@);
        }
        let mut strings = true;
        let mut numbers = true;
        let mut i: usize = 0;
        while i < values.len()
            invariant
                i <= values@.len(),
                vs.len() == values@.len(),
                forall|j: int| 0 <= j < values@.len() ==> #[trigger] vs[j] == values@[j]@,
                strings == (forall|j: int| 0 <= j < i ==> #[trigger] vs[j] is String),
                numbers == (forall|j: int| 0 <= j < i ==> #[trigger] vs[j] is Number),
            decreases values@.len() - i,
        {
            match &values[i] {
                JsonValue::String(_) => {
                    assert(vs[i as int] is String);
                    numbers = false;
                },
                JsonValue::Number(_) => {
                    assert(vs[i as int] is Number);
                    strings = false;
                },
                _ => {
                    assert(!(vs[i as int] is String) && !(vs[i as int] is Number));
                    strings = false;
                    numbers = false;
                },
            }
            i += 1;
        }
        if numbers {
            return Type::number();
        }
        if strings {
            let mut literals: Vec<Type> = Vec::new();
            let mut k: usize = 0;
            while k < values.len()
                invariant
                    k <= values@.len(),
                    vs.len() == values@.len(),
                    forall|j: int| 0 <= j < values@.len() ==> #[trigger] vs[j] == values@[j]@,
                    literals@.len() == k,
                    forall|j: int| 0 <= j < k ==> #[trigger] literals@[j]@ == string_literal_of(vs[j]),
                decreases values@.len() - k,
            {
                let lit = match &values[k] {
                    JsonValue::String(text) => Type::string_literal(text.as_str()),
                    _ => Type::any(),
                };
                literals.push(lit);
                k += 1;
            }
            proof {
                lemma_types_model(literals@);
                assert(types_model(literals@) =~= vs.map_values(|v: JsonValueModel| string_literal_of(v)));
            }
            return Type::enum_union(literals);
        }
        let all = vec![Type::string(), Type::number(), Type::boolean(), Type::nil()];
        proof {
            lemma_types_model(all@);
            assert(types_model(all@) =~= seq![TypeModel::String, TypeModel::Number, TypeModel::Boolean, TypeModel::Nil]);
        }
        Type::enum_union(all)
    }

    /// The type of a `const`: a string or boolean literal, `number` for any
    /// number, `nil` for null, and `any` otherwise.
    fn parse_const(value: &JsonValue) -> (r: Type)
        ensures
            r@ == const_type(value@),
    {
        match value {
            JsonValue::String(text) => Type::string_literal(text.as_str()),
            JsonValue::Number(_) => Type::number(),
            JsonValue::Bool(b) => Type::boolean_literal(*b),
            JsonValue::Null => Type::nil(),
            _ => Type::any(),
        }
    }

    /// The type names of a `type` keyword.
    pub fn get_single_types(schema_type: &SchemaType) -> (r: Vec<SingleType>)
        ensures
            r@ == single_types(crate::schema::schema_type_model(*schema_type)),
    {
        match schema_type {
            SchemaType::Single(single) => vec![*single],
            SchemaType::Multiple(types) => {
                let mut out: Vec<SingleType> = Vec::new();
                let mut i: usize = 0;
                while i < types.len()
                    invariant
                        i <= types@.len(),
                        out@ == types@.take(i as int),
                    decreases types@.len() - i,
                {
                    out.push(types[i]);
                    assert(types@.take(i + 1) == types@.take(i as int).push(types@[i as int]));
                    i += 1;
                }
                assert(types@.take(types@.len() as int) == types@);
                out
            },
        }
    }

    /// The type a type name stands for inside a list of type names.
    fn single_type_to_type(single: SingleType) -> (r: Type)
        ensures
            r@ == single_type_model(single),
    {
        match single {
            SingleType::String => Type::string(),
            SingleType::Number | SingleType::Integer => Type::number(),
            SingleType::Boolean => Type::boolean(),
            SingleType::Null => Type::nil(),
            SingleType::Array => Type::array(Type::any()),
            SingleType::Object => Type::map(Type::any()),
        }
    }

    /// The label of a top-level pure composition type: a comment is added only
    /// when the schema is resolved purely through `allOf` (without properties,
    /// `additionalProperties` or `required` of its own), `anyOf`, or `oneOf`.
    pub fn composition_label(obj: &SchemaObject) -> (r: Option<&'static str>)
        ensures
            match r {
                Some(label) => Some(label@),
                None => None::<Seq<char>>,
            } == composition_label_model(obj@),
    {
        proof {
            lemma_opt_map_model(obj.properties);
        }
        if obj.all_of.is_some() {
            let parent_has_props = obj.properties.is_some() || obj.additional_properties.is_some()
                || obj.required.is_some();
            if !parent_has_props {
                return Some("Intersection type (all conditions must be met)");
            }
            return None;
        }
        if obj.any_of.is_some() {
            return Some("Union type (any of these types)");
        }
        if obj.one_of.is_some() {
            return Some("Union type (exactly one of these types)");
        }
        None
    }

    /// The constraints a schema states.
    fn extract_constraints(schema: &JsonSchema) -> (r: Constraints)
        ensures
            r@ == schema_constraints(schema@),
    {
        match schema {
            JsonSchema::Object(obj) => Self::extract_object_constraints(obj),
            JsonSchema::Boolean(_) => Constraints::new(),
        }
    }

    /// The constraints a schema object states.
    fn extract_object_constraints(obj: &SchemaObject) -> (r: Constraints)
        ensures
            r@ == object_constraints(obj@),
    {
        let mut constraints = Constraints::new();
        if let Some(min) = &obj.minimum {
            constraints = constraints.with_minimum(min.as_str());
        }
        if let Some(max) = &obj.maximum {
            constraints = constraints.with_maximum(max.as_str());
        }
        if let Some(ex_min) = &obj.exclusive_minimum {
            constraints = constraints.with_exclusive_minimum(ex_min.as_str());
        }
        if let Some(ex_max) = &obj.exclusive_maximum {
            constraints = constraints.with_exclusive_maximum(ex_max.as_str());
        }
        if let Some(multiple) = &obj.multiple_of {
            constraints = constraints.with_multiple_of(multiple.as_str());
        }
        if let Some(min_len) = obj.min_length {
            constraints = constraints.with_min_length(min_len);
        }
        if let Some(max_len) = obj.max_length {
            constraints = constraints.with_max_length(max_len);
        }
        if let Some(pattern) = &obj.pattern {
            constraints = constraints.with_pattern(pattern.as_str());
        }
        if let Some(format) = &obj.format {
            constraints = constraints.with_format(format.as_str());
        }
        if let Some(min_items) = obj.min_items {
            constraints = constraints.with_min_items(min_items);
        }
        if let Some(max_items) = obj.max_items {
            constraints = constraints.with_max_items(max_items);
        }
        if let Some(true) = obj.unique_items {
            constraints = constraints.with_unique_items(true);
        }
        if let Some(min_props) = obj.min_properties {
            constraints = constraints.with_min_properties(min_props);
        }
        if let Some(max_props) = obj.max_properties {
            constraints = constraints.with_max_properties(max_props);
        }
        constraints
    }

    /// The constraints of the `additionalProperties` sub-schema of a schema;
    /// they are hoisted onto the enclosing property.
    fn extract_additional_constraints(schema: &JsonSchema) -> (r: Constraints)
        ensures
            r@ == additional_constraints(schema@),
    {
        if let JsonSchema::Object(obj) = schema {
            assert(schema@ == SchemaModel::Object(obj@));
            if let Some(SchemaAdditionalProperties::Schema(add_schema)) = &obj.additional_properties {
                assert(obj@.additional_properties == Some(AdditionalSchemaModel::Schema(Box::new((**add_schema)@))));
                return Self::extract_constraints(add_schema);
            }
            assert(!(obj@.additional_properties matches Some(AdditionalSchemaModel::Schema(_))));
        }
        Constraints::new()
    }

    /// The properties in order, each required when its name is in
    /// `required`, or the first error among them.
    fn collect_properties(outcomes: Vec<(String, Result<Property, ConversionError>)>, required: &Vec<String>) -> (r: Result<Vec<Property>, ConversionError>)
        ensures
            properties_result(r) == collect_properties(outcomes_model(outcomes@), texts(required@)),
    {
        let ghost given = outcomes@;
        let ghost req = texts(required@);
        let mut out: Vec<Property> = Vec::new();
        for entry in it: outcomes
            invariant
                it.seq() == given,
                req == texts(required@),
                collect_properties(outcomes_model(given).take(it.index() as int), req) == Ok::<Seq<PropertyModel>, ErrorModel>(properties_model(out@)),
        {
            let ghost k = it.index() as int;
            assert(outcomes_model(given).take(k + 1).drop_last() == outcomes_model(given).take(k));
            let (name, outcome) = entry;
            match outcome {
                Ok(prop) => {
                    let mut prop = prop;
                    prop.optional = !contains_text(required, name.as_str());
                    proof {
                        crate::ir::types::lemma_properties_model_push(out@, prop);
                    }
                    out.push(prop);
                },
                Err(e) => {
                    proof {
                        lemma_collect_prefix_error(outcomes_model(given), k + 1, req);
                    }
                    return Err(e);
                },
            }
        }
        assert(outcomes_model(given).take(given.len() as int) == outcomes_model(given));
        Ok(out)
    }
}

/// Where the properties of an object come from: the object's own
/// `properties`, or those merged from an `allOf`, with the required names.
enum PropertySource {
    Own,
    Merged(Vec<(String, Result<Property, ConversionError>)>, Vec<String>),
}

/// The parsed properties a source gives for an object.
spec fn source_props(src: PropertySource, o: SchemaObjectModel, inc: ParseOptions) -> Option<
    Seq<(Seq<char>, PropertyOutcome)>,
> {
    match src {
        PropertySource::Own => match o.properties {
            Some(p) => Some(property_outcomes(p, inc)),
            None => None,
        },
        PropertySource::Merged(v, _) => if v@.len() == 0 {
            None
        } else {
            Some(outcomes_model(v@))
        },
    }
}

/// The required names a source gives for an object.
spec fn source_required(src: PropertySource, o: SchemaObjectModel) -> Seq<Seq<char>> {
    match src {
        PropertySource::Own => required_names(o),
        PropertySource::Merged(_, r) => texts(r@),
    }
}

/// Whether a source gives properties for an object.
fn has_properties(src: &PropertySource, obj: &SchemaObject, Ghost(inc): Ghost<ParseOptions>) -> (r: bool)
    ensures
        r == source_props(*src, obj@, inc) is Some,
{
    proof {
        lemma_opt_map_model(obj.properties);
    }
    match src {
        PropertySource::Own => obj.properties.is_some(),
        PropertySource::Merged(v, _) => v.len() > 0,
    }
}

/// Inserts parsed properties by name, a later one replacing an earlier one.
fn insert_outcomes(
    merged: &mut Vec<(String, Result<Property, ConversionError>)>,
    outcomes: Vec<(String, Result<Property, ConversionError>)>,
)
    ensures
        outcomes_model(final(merged)@) == insert_all(outcomes_model(old(merged)@), outcomes_model(outcomes@)),
{
    let ghost acc = outcomes_model(merged@);
    let ghost given = outcomes@;
    for entry in it: outcomes
        invariant
            it.seq() == given,
            outcomes_model(merged@) == insert_all(acc, outcomes_model(given).take(it.index() as int)),
    {
        let ghost k = it.index() as int;
        let ghost before = merged@;
        assert(outcomes_model(given).take(k + 1).drop_last() == outcomes_model(given).take(k));
        let (name, outcome) = entry;
        proof {
            lemma_outcomes_keyed(before);
            lemma_map_insert_map_values(
                keyed(before),
                name@,
                outcome,
                |r: Result<Property, ConversionError>| property_result(r),
            );
        }
        entries_insert(merged, name, outcome);
        proof {
            lemma_outcomes_keyed(merged@);
        }
    }
    assert(outcomes_model(given).take(given.len() as int) == outcomes_model(given));
}

impl SchemaParser {
    /// Parse a schema to an IR type (for inline use).
    fn parse_to_type(&self, schema: &JsonSchema) -> (r: Result<Type, ConversionError>)
        ensures
            type_result(r) == schema_type(schema@, config_options(self.config)),
        decreases schema, 10nat,
    {
        match schema {
            JsonSchema::Boolean(b) => if *b {
                Ok(Type::any())
            } else {
                Ok(Type::never())
            },
            JsonSchema::Object(obj) => self.parse_schema_object_to_type(obj),
        }
    }

    /// Parse a schema object to an IR type.
    fn parse_schema_object_to_type(&self, obj: &SchemaObject) -> (r: Result<Type, ConversionError>)
        ensures
            type_result(r) == object_type(obj@, config_options(self.config)),
        decreases obj, 8nat,
    {
        let ghost inc = config_options(self.config);
        proof {
            lemma_opt_map_model(obj.properties);
        }
        if let Some(ref_path) = &obj.ref_ {
            return Self::resolve_ref(ref_path.as_str());
        }
        if let Some(values) = &obj.enum_ {
            return Ok(Self::parse_enum(values));
        }
        if let Some(value) = &obj.const_ {
            return Ok(Self::parse_const(value));
        }
        match &obj.all_of {
            Some(all_of) => {
                let has_parent_props = obj.properties.is_some()
                    || obj.additional_properties.is_some() || obj.required.is_some();
                if has_parent_props {
                    // Parent properties are merged with those of the allOf members
                    // without $ref; each $ref becomes an intersection member.
                    let mut ref_types = match Self::resolve_sub_refs(all_of) {
                        Ok(types) => types,
                        Err(e) => return Err(e),
                    };
                    let mut merged_props = match &obj.properties {
                        Some(m) => self.parse_property_entries(m),
                        None => Vec::new(),
                    };
                    assert(outcomes_model(merged_props@) == own_outcomes(obj@, inc));
                    self.merge_sub_properties(&mut merged_props, all_of);
                    let mut merged_required = required_of(obj);
                    let mut sub_req = sub_required_of(all_of);
                    proof {
                        lemma_texts_concat(merged_required@, sub_req@);
                    }
                    merged_required.append(&mut sub_req);
                    let merged_type = match self.parse_rest(
                        obj,
                        PropertySource::Merged(merged_props, merged_required),
                    ) {
                        Ok(t) => t,
                        Err(e) => return Err(e),
                    };
                    if ref_types.len() == 0 {
                        return Ok(merged_type);
                    }
                    let mut parts = vec![merged_type];
                    proof {
                        lemma_types_model_concat(parts@, ref_types@);
                        lemma_types_model(parts@);
                        assert(types_model(parts@) == seq![parts@[0]@]);
                    }
                    parts.append(&mut ref_types);
                    Ok(Type::intersection(parts))
                } else {
                    match self.parse_schemas(all_of) {
                        Ok(types) => Ok(Type::intersection(types)),
                        Err(e) => Err(e),
                    }
                }
            },
            None => self.parse_rest(obj, PropertySource::Own),
        }
    }

    /// Parse `anyOf`, `oneOf` (both unions in Luau) and type-specific keywords.
    fn parse_rest(&self, obj: &SchemaObject, src: PropertySource) -> (r: Result<Type, ConversionError>)
        ensures
            type_result(r) == rest_type(
                obj@,
                source_props(src, obj@, config_options(self.config)),
                source_required(src, obj@),
                config_options(self.config),
            ),
        decreases obj, 6nat,
    {
        if let Some(any_of) = &obj.any_of {
            return match self.parse_schemas(any_of) {
                Ok(types) => Ok(Type::union(types)),
                Err(e) => Err(e),
            };
        }
        if let Some(one_of) = &obj.one_of {
            return match self.parse_schemas(one_of) {
                Ok(types) => Ok(Type::union(types)),
                Err(e) => Err(e),
            };
        }
        self.parse_type_specific(obj, src)
    }

    /// Parse type-specific keywords.
    fn parse_type_specific(&self, obj: &SchemaObject, src: PropertySource) -> (r: Result<Type, ConversionError>)
        requires
            obj.any_of is None,
            obj.one_of is None,
        ensures
            type_result(r) == rest_type(
                obj@,
                source_props(src, obj@, config_options(self.config)),
                source_required(src, obj@),
                config_options(self.config),
            ),
        decreases obj, 5nat,
    {
        let ghost inc = config_options(self.config);
        match &obj.type_ {
            Some(type_) => {
                let types = Self::get_single_types(type_);
                if types.len() == 0 {
                    return Ok(Type::any());
                }
                if types.len() > 1 {
                    let mut members: Vec<Type> = Vec::new();
                    let mut i: usize = 0;
                    while i < types.len()
                        invariant
                            i <= types@.len(),
                            members@.len() == i,
                            forall|j: int| 0 <= j < i ==> #[trigger] members@[j]@ == single_type_model(types@[j]),
                        decreases types@.len() - i,
                    {
                        members.push(Self::single_type_to_type(types[i]));
                        i += 1;
                    }
                    proof {
                        lemma_types_model(members@);
                        assert(types_model(members@) =~= types@.map_values(|t: SingleType| single_type_model(t)));
                    }
                    return Ok(Type::union(members));
                }
                self.parse_single_type(obj, types[0], src)
            },
            None => {
                if has_properties(&src, obj, Ghost(inc)) || obj.additional_properties.is_some() {
                    self.parse_object_type(obj, src)
                } else {
                    Ok(Type::any())
                }
            },
        }
    }

    /// Parse a schema whose `type` is one type name.
    fn parse_single_type(&self, obj: &SchemaObject, single: SingleType, src: PropertySource) -> (r: Result<Type, ConversionError>)
        ensures
            type_result(r) == single_type(
                obj@,
                single,
                source_props(src, obj@, config_options(self.config)),
                source_required(src, obj@),
                config_options(self.config),
            ),
        decreases obj, 4nat,
    {
        match single {
            SingleType::Object => self.parse_object_type(obj, src),
            SingleType::Array => self.parse_array_type(obj),
            SingleType::String | SingleType::Number | SingleType::Integer => Ok(
                Self::single_type_to_type(single),
            ),
            SingleType::Boolean => Ok(Type::boolean()),
            SingleType::Null => Ok(Type::nil()),
        }
    }

    /// Parse an object type: its properties, then its additional properties.
    fn parse_object_type(&self, obj: &SchemaObject, src: PropertySource) -> (r: Result<Type, ConversionError>)
        ensures
            type_result(r) == object_shape(
                obj@,
                source_props(src, obj@, config_options(self.config)),
                source_required(src, obj@),
                config_options(self.config),
            ),
        decreases obj, 3nat,
    {
        proof {
            lemma_opt_map_model(obj.properties);
        }
        let (outcomes, required) = match src {
            PropertySource::Own => {
                let outcomes = match &obj.properties {
                    Some(m) => Some(self.parse_property_entries(m)),
                    None => None,
                };
                (outcomes, required_of(obj))
            },
            PropertySource::Merged(v, req) => if v.len() == 0 {
                (None, req)
            } else {
                (Some(v), req)
            },
        };
        let mut object = ObjectType::new();
        if let Some(outs) = outcomes {
            match Self::collect_properties(outs, &required) {
                Ok(props) => {
                    object.properties = props;
                },
                Err(e) => return Err(e),
            }
        }
        if let Some(additional) = &obj.additional_properties {
            match self.parse_additional_properties(additional) {
                Ok(a) => {
                    object.additional_properties = Some(a);
                },
                Err(e) => return Err(e),
            }
        }
        proof {
            crate::ir::types::lemma_properties_model(object.properties@);
        }
        if object.properties.len() == 0 {
            match object.additional_properties {
                None => {
                    return Ok(Type::map(Type::any()));
                },
                Some(IrAdditionalProperties::Any) => {
                    return Ok(Type::map(Type::any()));
                },
                Some(IrAdditionalProperties::Schema(value)) => {
                    return Ok(Type::map(*value));
                },
                Some(IrAdditionalProperties::False) => {
                    let empty = ObjectType::new().with_additional_properties(
                        IrAdditionalProperties::none(),
                    );
                    return Ok(Type::object(empty));
                },
            }
        }
        Ok(Type::object(object))
    }

    /// Parse an array type: its `items`, or `any`.
    fn parse_array_type(&self, obj: &SchemaObject) -> (r: Result<Type, ConversionError>)
        ensures
            forall|props: Option<Seq<(Seq<char>, PropertyOutcome)>>, required: Seq<Seq<char>>|
                type_result(r) == #[trigger] single_type(
                    obj@,
                    SingleType::Array,
                    props,
                    required,
                    config_options(self.config),
                ),
        decreases obj, 2nat,
    {
        match &obj.items {
            Some(items) => match self.parse_to_type(items) {
                Ok(item_type) => Ok(Type::array(item_type)),
                Err(e) => Err(e),
            },
            None => Ok(Type::array(Type::any())),
        }
    }

    /// Parse `additionalProperties`.
    fn parse_additional_properties(&self, additional: &SchemaAdditionalProperties) -> (r: Result<IrAdditionalProperties, ConversionError>)
        ensures
            match r {
                Ok(a) => Ok(a@),
                Err(e) => Err(e@),
            } == additional_type(additional_schema_model(*additional), config_options(self.config)),
        decreases additional, 2nat,
    {
        match additional {
            SchemaAdditionalProperties::Boolean(b) => if *b {
                Ok(IrAdditionalProperties::any())
            } else {
                Ok(IrAdditionalProperties::none())
            },
            SchemaAdditionalProperties::Schema(schema) => match self.parse_to_type(schema) {
                Ok(ty) => Ok(IrAdditionalProperties::schema(ty)),
                Err(e) => Err(e),
            },
        }
    }

    /// Parse a list of schemas, stopping at the first error.
    fn parse_schemas(&self, schemas: &Vec<JsonSchema>) -> (r: Result<Vec<Type>, ConversionError>)
        ensures
            types_result(r) == schemas_types(schemas_model(schemas@), config_options(self.config)),
        decreases schemas, 1nat,
    {
        let ghost inc = config_options(self.config);
        let ghost ms = schemas_model(schemas@);
        proof {
            lemma_schemas_model(schemas@);
        }
        let mut out: Vec<Type> = Vec::new();
        let mut i: usize = 0;
        while i < schemas.len()
            invariant
                i <= schemas@.len(),
                inc == config_options(self.config),
                ms == schemas_model(schemas@),
                ms.len() == schemas@.len(),
                forall|j: int| 0 <= j < schemas@.len() ==> #[trigger] ms[j] == schemas@[j]@,
                schemas_types(ms.take(i as int), inc) == Ok::<Seq<TypeModel>, ErrorModel>(types_model(out@)),
            decreases schemas@.len() - i,
        {
            assert(ms.take(i + 1).drop_last() == ms.take(i as int));
            match self.parse_to_type(&schemas[i]) {
                Ok(t) => {
                    proof {
                        crate::ir::types::lemma_types_model_push(out@, t);
                    }
                    out.push(t);
                },
                Err(e) => {
                    proof {
                        lemma_schemas_types_prefix_error(ms, i + 1, inc);
                    }
                    return Err(e);
                },
            }
            i += 1;
        }
        assert(ms.take(schemas@.len() as int) == ms);
        Ok(out)
    }

    /// Parse each named schema of a map as a property, in order of the names.
    fn parse_property_entries(&self, properties: &SchemaMap) -> (r: Vec<(String, Result<Property, ConversionError>)>)
        ensures
            outcomes_model(r@) == property_outcomes(properties@, config_options(self.config)),
        decreases properties, 1nat,
    {
        let ghost inc = config_options(self.config);
        proof {
            lemma_map_view(*properties);
            lemma_entries_model_index(properties.entries@);
            lemma_property_outcomes(properties@, inc);
        }
        let mut out: Vec<(String, Result<Property, ConversionError>)> = Vec::new();
        let mut i: usize = 0;
        while i < properties.entries.len()
            invariant
                i <= properties.entries@.len(),
                inc == config_options(self.config),
                out@.len() == i,
                forall|j: int|
                    0 <= j < i ==> #[trigger] out@[j].0@ == properties.entries@[j].0@
                        && property_result(out@[j].1) == property_outcome(
                        properties.entries@[j].0@,
                        properties.entries@[j].1@,
                        inc,
                    ),
            decreases properties.entries@.len() - i,
        {
            let name = properties.entries[i].0.clone();
            let outcome = self.parse_property(name.as_str(), &properties.entries[i].1);
            out.push((name, outcome));
            i += 1;
        }
        assert(outcomes_model(out@) =~= property_outcomes(properties@, inc));
        out
    }

    /// Parse a named schema as an optional property.
    fn parse_property(&self, name: &str, schema: &JsonSchema) -> (r: Result<Property, ConversionError>)
        ensures
            property_result(r) == property_outcome(name@, schema@, config_options(self.config)),
        decreases schema, 11nat,
    {
        let description = match schema {
            JsonSchema::Object(obj) => match &obj.description {
                Some(d) => if self.config.include_descriptions {
                    Some(d.clone())
                } else {
                    None
                },
                None => None,
            },
            JsonSchema::Boolean(_) => None,
        };
        let constraints = Self::extract_constraints(schema);
        let extra_constraints = Self::extract_additional_constraints(schema);
        let ty = match self.parse_to_type(schema) {
            Ok(t) => t,
            Err(e) => return Err(e),
        };
        let mut prop = Property::optional(name, ty);
        if let Some(desc) = description {
            prop = prop.with_description(desc.as_str());
        }
        if self.config.include_constraints {
            if !constraints.is_empty() {
                prop = prop.with_constraints(constraints);
            }
            if !extra_constraints.is_empty() {
                prop = prop.with_extra_constraints(extra_constraints);
            }
        }
        Ok(prop)
    }

    /// Merge the properties of the `allOf` members without `$ref` into `merged`.
    fn merge_sub_properties(
        &self,
        merged: &mut Vec<(String, Result<Property, ConversionError>)>,
        subs: &Vec<JsonSchema>,
    )
        ensures
            outcomes_model(final(merged)@) == merge_sub_properties(
                outcomes_model(old(merged)@),
                schemas_model(subs@),
                config_options(self.config),
            ),
        decreases subs, 1nat,
    {
        let ghost inc = config_options(self.config);
        let ghost acc = outcomes_model(merged@);
        let ghost ms = schemas_model(subs@);
        proof {
            lemma_schemas_model(subs@);
        }
        let mut i: usize = 0;
        while i < subs.len()
            invariant
                i <= subs@.len(),
                inc == config_options(self.config),
                ms == schemas_model(subs@),
                ms.len() == subs@.len(),
                forall|j: int| 0 <= j < subs@.len() ==> #[trigger] ms[j] == subs@[j]@,
                outcomes_model(merged@) == merge_sub_properties(acc, ms.take(i as int), inc),
            decreases subs@.len() - i,
        {
            assert(ms.take(i + 1).drop_last() == ms.take(i as int));
            match &subs[i] {
                JsonSchema::Object(so) => {
                    proof {
                        lemma_opt_map_model(so.properties);
                    }
                    if so.ref_.is_none() {
                        if let Some(props) = &so.properties {
                            let outcomes = self.parse_property_entries(props);
                            insert_outcomes(merged, outcomes);
                        }
                    }
                },
                JsonSchema::Boolean(_) => {},
            }
            i += 1;
        }
        assert(ms.take(subs@.len() as int) == ms);
    }
}

impl SchemaParser {
    /// Create a new schema parser with default configuration.
    pub fn new() -> (r: Self)
        ensures
            r@ == fresh_parser("Root"@, true, true),
    {
        Self::with_config(IrConfig::default())
    }

    /// Create a new schema parser with custom configuration.
    pub fn with_config(config: IrConfig) -> (r: Self)
        ensures
            r@ == fresh_parser(
                config.root_type_name@,
                config.include_constraints,
                config.include_descriptions,
            ),
    {
        let r = SchemaParser {
            config,
            definitions: SchemaMap::new(),
            generated_types: Vec::new(),
        };
        assert(texts(r.generated_types@) =~= Seq::<Seq<char>>::empty());
        r
    }

    /// Parse a JSON Schema into an IR type module.
    pub fn parse(&mut self, schema: &JsonSchema) -> (r: Result<TypeModule, ConversionError>)
        ensures
            final(self)@ == parse_outcome(old(self)@, schema@).0,
            module_result(r) == parse_outcome(old(self)@, schema@).1,
    {
        // Extract definitions first
        self.extract_definitions(schema);

        let mut module = TypeModule::new();

        // Parse root type
        let root_name = to_pascal_case(self.config.root_type_name.as_str());
        let root_type = match self.parse_to_type_def(schema, root_name.as_str()) {
            Ok(def) => def,
            Err(e) => return Err(e),
        };
        module.root_type = Some(root_type);

        // Parse all definitions
        match self.parse_definitions(&mut module) {
            Ok(()) => Ok(module),
            Err(e) => Err(e),
        }
    }

    /// Collect the definitions of a schema: those of `definitions`, then
    /// those of `$defs`, each replacing a definition of the same name.
    pub fn extract_definitions(&mut self, schema: &JsonSchema)
        ensures
            final(self)@ == (ParserModel {
                definitions: extracted_definitions(old(self)@.definitions, schema@),
                ..old(self)@
            }),
    {
        if let JsonSchema::Object(obj) = schema {
            proof {
                lemma_opt_map_model(obj.definitions);
                lemma_opt_map_model(obj.defs);
            }
            if let Some(defs) = &obj.definitions {
                self.add_definitions(defs);
            }
            if let Some(defs) = &obj.defs {
                self.add_definitions(defs);
            }
        }
    }

    /// Add each named schema of `defs` to the definitions.
    fn add_definitions(&mut self, defs: &SchemaMap)
        ensures
            final(self)@ == (ParserModel {
                definitions: insert_all(old(self)@.definitions, defs@),
                ..old(self)@
            }),
    {
        proof {
            lemma_map_view(*defs);
            lemma_entries_model_index(defs.entries@);
        }
        let ghost start = self.definitions@;
        let mut i: usize = 0;
        while i < defs.entries.len()
            invariant
                i <= defs.entries@.len(),
                defs@.len() == defs.entries@.len(),
                forall|j: int|
                    0 <= j < defs.entries@.len() ==> #[trigger] defs@[j] == (
                        defs.entries@[j].0@,
                        defs.entries@[j].1@,
                    ),
                self@ == (ParserModel { definitions: insert_all(start, defs@.take(i as int)), ..old(self)@ }),
            decreases defs.entries@.len() - i,
        {
            let name = defs.entries[i].0.clone();
            let schema = defs.entries[i].1.deep_clone();
            assert(defs@.take(i + 1).drop_last() == defs@.take(i as int));
            self.definitions.insert(name, schema);
            i += 1;
        }
        assert(defs@.take(defs.entries@.len() as int) == defs@);
    }

    /// Parse a schema into a type definition named `name`: exported, with the
    /// schema's description and the label of a pure composition.
    pub fn type_def_of(&self, schema: &JsonSchema, name: &str) -> (r: Result<TypeDef, ConversionError>)
        ensures
            type_def_result_model(r) == type_def_result(schema@, name@, model_options(self@)),
    {
        match schema {
            JsonSchema::Boolean(b) => if *b {
                Ok(TypeDef::new(name, Type::any()))
            } else {
                Ok(TypeDef::new(name, Type::never()))
            },
            JsonSchema::Object(obj) => self.parse_object_to_def(obj, name),
        }
    }

    /// Parse an object schema into a type definition.
    fn parse_object_to_def(&self, obj: &SchemaObject, name: &str) -> (r: Result<TypeDef, ConversionError>)
        ensures
            type_def_result_model(r) == type_def_result(
                SchemaModel::Object(obj@),
                name@,
                config_options(self.config),
            ),
    {
        let description = match &obj.description {
            Some(d) => if self.config.include_descriptions {
                Some(d.clone())
            } else {
                None
            },
            None => None,
        };
        let label = Self::composition_label(obj);
        let ty = match self.parse_schema_object_to_type(obj) {
            Ok(t) => t,
            Err(e) => return Err(e),
        };
        let mut type_def = TypeDef::new(name, ty);
        if let Some(desc) = description {
            type_def = type_def.with_description(desc.as_str());
        }
        if let Some(label) = label {
            type_def = type_def.with_label(label);
        }
        if self.config.include_constraints {
            type_def = type_def.with_constraints(Self::extract_object_constraints(obj));
        }
        Ok(type_def)
    }

    /// Record `name` as generated, then parse a schema into a type definition
    /// of that name.
    fn parse_to_type_def(&mut self, schema: &JsonSchema, name: &str) -> (r: Result<TypeDef, ConversionError>)
        ensures
            final(self)@ == (ParserModel { generated: old(self)@.generated.push(name@), ..old(self)@ }),
            final(self).definitions == old(self).definitions,
            final(self).config == old(self).config,
            type_def_result_model(r) == type_def_result(schema@, name@, model_options(old(self)@)),
    {
        let ghost before = self.generated_types@;
        self.generated_types.push(owned(name));
        assert(texts(self.generated_types@) =~= texts(before).push(name@));
        self.type_def_of(schema, name)
    }

    /// Parse all collected definitions into the module, in order of their names.
    fn parse_definitions(&mut self, module: &mut TypeModule) -> (r: Result<(), ConversionError>)
        ensures
            final(self)@ == (ParserModel {
                generated: definitions_outcome(
                    old(self)@.generated,
                    old(self)@.definitions,
                    model_options(old(self)@),
                ).0,
                ..old(self)@
            }),
            match definitions_outcome(
                old(self)@.generated,
                old(self)@.definitions,
                model_options(old(self)@),
            ).1 {
                Ok(ds) => r is Ok && final(module)@ == (TypeModuleModel {
                    definitions: old(module)@.definitions + ds,
                    ..old(module)@
                }),
                Err(e) => r matches Err(err) && err@ == e,
            },
    {
        let ghost st0 = self@;
        let ghost m0 = module@;
        let ghost entries = self@.definitions;
        let ghost inc = config_options(self.config);
        let ghost mut produced: Seq<TypeDefModel> = Seq::empty();
        proof {
            lemma_map_view(self.definitions);
            lemma_entries_model_index(self.definitions.entries@);
            assert(entries.skip(0) == entries);
            let o0 = definitions_outcome(st0.generated, entries, inc);
            match o0.1 {
                Ok(x) => {
                    assert(produced + x =~= x);
                },
                Err(_) => {},
            }
        }
        let mut i: usize = 0;
        while i < self.definitions.entries.len()
            invariant
                i <= self.definitions.entries@.len(),
                entries == self@.definitions,
                entries.len() == self.definitions.entries@.len(),
                forall|j: int|
                    0 <= j < entries.len() ==> #[trigger] entries[j] == (
                        self.definitions.entries@[j].0@,
                        self.definitions.entries@[j].1@,
                    ),
                inc == config_options(self.config),
                st0 == old(self)@,
                m0 == old(module)@,
                inc == model_options(st0),
                self@ == (ParserModel { generated: self@.generated, ..st0 }),
                module@ == (TypeModuleModel { definitions: m0.definitions + produced, ..m0 }),
                definitions_outcome(st0.generated, entries, inc) == prefixed(
                    produced,
                    definitions_outcome(self@.generated, entries.skip(i as int), inc),
                ),
            decreases self.definitions.entries@.len() - i,
        {
            let ghost rest = entries.skip(i as int);
            assert(rest[0] == entries[i as int]);
            assert(rest.drop_first() == entries.skip(i + 1));
            let pascal_name = to_pascal_case(self.definitions.entries[i].0.as_str());
            if !contains_text(&self.generated_types, pascal_name.as_str()) {
                let def_schema = self.definitions.entries[i].1.deep_clone();
                let ghost gen = self@.generated;
                let type_def = match self.parse_to_type_def(&def_schema, pascal_name.as_str()) {
                    Ok(def) => def,
                    Err(e) => {
                        assert(definitions_outcome(gen, rest, inc) == (
                            gen.push(pascal_name@),
                            Err::<Seq<TypeDefModel>, ErrorModel>(e@),
                        ));
                        return Err(e);
                    },
                };
                let ghost d = type_def@;
                let ghost before = module.definitions@;
                module.definitions.push(type_def);
                proof {
                    assert(defs_model(module.definitions@) =~= defs_model(before).push(d));
                    let o = definitions_outcome(self@.generated, entries.skip(i + 1), inc);
                    match o.1 {
                        Ok(x) => {
                            assert(produced + (seq![d] + x) =~= produced.push(d) + x);
                        },
                        Err(_) => {},
                    }
                    assert(m0.definitions + produced.push(d) =~= (m0.definitions + produced).push(d));
                    produced = produced.push(d);
                }
            }
            i += 1;
        }
        proof {
            assert(entries.skip(i as int).len() == 0);
            assert(produced + Seq::<TypeDefModel>::empty() =~= produced);
        }
        Ok(())
    }
}

impl Default for SchemaParser {
    fn default() -> (r: Self)
        ensures
            r@ == fresh_parser("Root"@, true, true),
    {
        Self::new()
    }
}

} // verus!
