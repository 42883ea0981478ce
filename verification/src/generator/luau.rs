//! Luau code generator from IR.

use vstd::prelude::*;

use crate::ir::types::{
    lemma_properties_model, lemma_types_model, needs_parens_model, no_constraints,
    properties_model, types_model,
};
use crate::ir::{
    AdditionalModel, AdditionalProperties, Constraints, ConstraintsModel, ObjectModel, ObjectType,
    Property, PropertyModel, Type, TypeDef, TypeDefModel, TypeModel, TypeModule, TypeModuleModel,
};
use crate::text::{
    chars_of, decimal, join, join_texts, owned, push_char, push_decimal, push_repeat, repeat,
    texts,
};

verus! {

broadcast use vstd::std_specs::vec::group_vec_axioms;

/// Model of [`LuauConfig`].
pub struct LuauConfigModel {
    pub indent: Seq<char>,
    pub include_constraints: bool,
    pub include_descriptions: bool,
    pub module_export: bool,
}

/// Configuration for Luau code generation.
#[derive(Debug, Clone)]
pub struct LuauConfig {
    /// Indentation string (default: 4 spaces).
    pub indent: String,
    /// Whether to include constraint annotations.
    pub include_constraints: bool,
    /// Whether to include descriptions as comments.
    pub include_descriptions: bool,
    /// Whether to add `return {}` at the end for module exports.
    pub module_export: bool,
}

impl View for LuauConfig {
    type V = LuauConfigModel;

    open spec fn view(&self) -> LuauConfigModel {
        LuauConfigModel {
            indent: self.indent@,
            include_constraints: self.include_constraints,
            include_descriptions: self.include_descriptions,
            module_export: self.module_export,
        }
    }
}

impl Default for LuauConfig {
    fn default() -> (r: Self)
        ensures
            r@ == (LuauConfigModel {
                indent: "    "@,
                include_constraints: true,
                include_descriptions: true,
                module_export: true,
            }),
    {
        LuauConfig {
            indent: owned("    "),
            include_constraints: true,
            include_descriptions: true,
            module_export: true,
        }
    }
}

/// Generator for Luau type definitions from IR.
pub struct LuauGenerator {
    config: LuauConfig,
}

impl View for LuauGenerator {
    type V = LuauConfigModel;

    closed spec fn view(&self) -> LuauConfigModel {
        self.config@
    }
}

// ---------------------------------------------------------------------------
// What the generator writes
// ---------------------------------------------------------------------------

/// The Luau spelling of one character inside a double-quoted string.
pub open spec fn escape_char(c: char) -> Seq<char> {
    if c == '\\' {
        seq!['\\', '\\']
    } else if c == '"' {
        seq!['\\', '"']
    } else if c == '\n' {
        seq!['\\', 'n']
    } else if c == '\r' {
        seq!['\\', 'r']
    } else if c == '\t' {
        seq!['\\', 't']
    } else {
        seq![c]
    }
}

/// A text escaped for use inside a double-quoted Luau string.
pub open spec fn escape_text(s: Seq<char>) -> Seq<char>
    decreases s.len(),
{
    if s.len() == 0 {
        Seq::empty()
    } else {
        escape_char(s[0]) + escape_text(s.drop_first())
    }
}

/// The character a backslash escape stands for.
pub open spec fn unescape_char(c: char) -> char {
    if c == 'n' {
        '\n'
    } else if c == 'r' {
        '\r'
    } else if c == 't' {
        '\t'
    } else {
        c
    }
}

/// Reads an escaped Luau string body back.
pub open spec fn unescape_text(s: Seq<char>) -> Seq<char>
    decreases s.len(),
{
    if s.len() == 0 {
        Seq::empty()
    } else if s[0] == '\\' && s.len() >= 2 {
        seq![unescape_char(s[1])] + unescape_text(s.skip(2))
    } else {
        seq![s[0]] + unescape_text(s.drop_first())
    }
}

/// `s` in parentheses.
pub open spec fn parenthesized(s: Seq<char>) -> Seq<char> {
    "("@ + s + ")"@
}

/// The marker written after an optional property's type.
pub open spec fn optional_marker(optional: bool) -> Seq<char> {
    if optional {
        "?"@
    } else {
        Seq::empty()
    }
}

/// One constraint comment line, when the constraint is present.
pub open spec fn text_line(ind: Seq<char>, tag: Seq<char>, v: Option<Seq<char>>) -> Seq<char> {
    match v {
        Some(x) => ind + tag + x + "\n"@,
        None => Seq::empty(),
    }
}

/// One numeric constraint comment line, when the constraint is present.
pub open spec fn count_line(ind: Seq<char>, tag: Seq<char>, v: Option<usize>) -> Seq<char> {
    match v {
        Some(n) => ind + tag + decimal(n as nat) + "\n"@,
        None => Seq::empty(),
    }
}

/// The constraint comment lines, in a fixed order.
pub open spec fn constraints_text(c: ConstraintsModel, ind: Seq<char>) -> Seq<char> {
    text_line(ind, "--- @minimum "@, c.minimum) + text_line(ind, "--- @maximum "@, c.maximum)
        + text_line(ind, "--- @exclusiveMinimum "@, c.exclusive_minimum) + text_line(
        ind,
        "--- @exclusiveMaximum "@,
        c.exclusive_maximum,
    ) + text_line(ind, "--- @multipleOf "@, c.multiple_of) + count_line(
        ind,
        "--- @minLength "@,
        c.min_length,
    ) + count_line(ind, "--- @maxLength "@, c.max_length) + text_line(
        ind,
        "--- @pattern "@,
        c.pattern,
    ) + text_line(ind, "--- @format "@, c.format) + count_line(
        ind,
        "--- @minItems "@,
        c.min_items,
    ) + count_line(ind, "--- @maxItems "@, c.max_items) + (if c.unique_items == Some(true) {
        ind + "--- @uniqueItems true\n"@
    } else {
        Seq::empty()
    }) + count_line(ind, "--- @minProperties "@, c.min_properties) + count_line(
        ind,
        "--- @maxProperties "@,
        c.max_properties,
    )
}

/// The Luau text of a type.  `inline` selects the single-line form of
/// object types; `indent` is the nesting depth of a multi-line object.
pub open spec fn type_text(cfg: LuauConfigModel, t: TypeModel, indent: nat, inline: bool) -> Seq<
    char,
>
    decreases t,
{
    match t {
        TypeModel::Any => "any"@,
        TypeModel::Never => "never"@,
        TypeModel::Nil => "nil"@,
        TypeModel::Boolean => "boolean"@,
        TypeModel::Number => "number"@,
        TypeModel::String => "string"@,
        TypeModel::StringLiteral(s) => "\""@ + escape_text(s) + "\""@,
        TypeModel::NumberLiteral(n) => n,
        TypeModel::BooleanLiteral(b) => if b {
            "true"@
        } else {
            "false"@
        },
        TypeModel::Array(e) => {
            let es = type_text(cfg, *e, indent, true);
            if needs_parens_model(*e) {
                "{ ("@ + es + ") }"@
            } else {
                "{ "@ + es + " }"@
            }
        },
        TypeModel::Object(o) => if inline {
            "{ "@ + join(inline_parts(cfg, o), ", "@) + " }"@
        } else {
            "{\n"@ + block_properties_text(
                cfg,
                o.properties,
                repeat(cfg.indent, indent + 1),
            ) + block_additional_text(cfg, o.additional_properties, repeat(cfg.indent, indent + 1))
                + repeat(cfg.indent, indent) + "}"@
        },
        TypeModel::Union(ts) => join(members_text(cfg, ts, indent, true), " | "@),
        TypeModel::EnumUnion(ts) => join(members_text(cfg, ts, indent, false), " | "@),
        TypeModel::Intersection(ts) => join(members_text(cfg, ts, indent, true), " & "@),
        TypeModel::Reference(n) => n,
        TypeModel::Dictionary(v) => "{ [string]: "@ + type_text(cfg, *v, 0, true) + " }"@,
        TypeModel::Tuple(ts) => "{ "@ + join(members_text(cfg, ts, indent, false), ", "@)
            + " }"@,
    }
}

/// The texts of union, intersection or tuple members, each parenthesized
/// when `parens` is set and the member is itself a union or intersection.
pub open spec fn members_text(cfg: LuauConfigModel, ts: Seq<TypeModel>, indent: nat, parens: bool) -> Seq<
    Seq<char>,
>
    decreases ts,
{
    if ts.len() == 0 {
        Seq::empty()
    } else {
        let s = type_text(cfg, ts.last(), indent, true);
        members_text(cfg, ts.drop_last(), indent, parens).push(
            if parens && needs_parens_model(ts.last()) {
                parenthesized(s)
            } else {
                s
            },
        )
    }
}

/// The comma-separated parts of an object written on one line.
pub open spec fn inline_parts(cfg: LuauConfigModel, o: ObjectModel) -> Seq<Seq<char>>
    decreases o,
{
    inline_properties(cfg, o.properties) + inline_additional(cfg, o.additional_properties)
}

/// The parts for properties of an object written on one line.
pub open spec fn inline_properties(cfg: LuauConfigModel, ps: Seq<PropertyModel>) -> Seq<Seq<char>>
    decreases ps,
{
    if ps.len() == 0 {
        Seq::empty()
    } else {
        inline_properties(cfg, ps.drop_last()).push(
            ps.last().name + ": "@ + type_text(cfg, ps.last().ty, 0, true) + optional_marker(
                ps.last().optional,
            ),
        )
    }
}

/// The part for additional properties of an object written on one line.
pub open spec fn inline_additional(cfg: LuauConfigModel, a: Option<AdditionalModel>) -> Seq<
    Seq<char>,
>
    decreases a,
{
    match a {
        Some(AdditionalModel::Any) => seq!["[string]: any"@],
        Some(AdditionalModel::Schema(t)) => seq!["[string]: "@ + type_text(cfg, *t, 0, true)],
        _ => Seq::empty(),
    }
}

/// The lines of the properties of a multi-line object.
pub open spec fn block_properties_text(cfg: LuauConfigModel, ps: Seq<PropertyModel>, ind: Seq<char>) -> Seq<
    char,
>
    decreases ps,
{
    if ps.len() == 0 {
        Seq::empty()
    } else {
        block_properties_text(cfg, ps.drop_last(), ind) + property_text(cfg, ps.last(), ind)
    }
}

/// The lines of one property of a multi-line object: its description, its
/// constraint comments and its declaration.
pub open spec fn property_text(cfg: LuauConfigModel, p: PropertyModel, ind: Seq<char>) -> Seq<char>
    decreases p,
{
    let ts = type_text(cfg, p.ty, 0, true);
    (if cfg.include_descriptions && p.description is Some {
        ind + "--- "@ + p.description->0 + "\n"@
    } else {
        Seq::empty()
    }) + (if cfg.include_constraints {
        constraints_text(p.constraints, ind) + constraints_text(p.extra_constraints, ind)
    } else {
        Seq::empty()
    }) + ind + p.name + ": "@ + (if needs_parens_model(p.ty) {
        parenthesized(ts)
    } else {
        ts
    }) + optional_marker(p.optional) + ",\n"@
}

/// The line for additional properties of a multi-line object.
pub open spec fn block_additional_text(
    cfg: LuauConfigModel,
    a: Option<AdditionalModel>,
    ind: Seq<char>,
) -> Seq<char>
    decreases a,
{
    match a {
        Some(AdditionalModel::Any) => ind + "[string]: any,\n"@,
        Some(AdditionalModel::Schema(t)) => ind + "[string]: "@ + type_text(cfg, *t, 0, true)
            + ",\n"@,
        _ => Seq::empty(),
    }
}

/// A comment line, when there is a comment.
pub open spec fn comment_line(c: Option<Seq<char>>) -> Seq<char> {
    match c {
        Some(x) => "--- "@ + x + "\n"@,
        None => Seq::empty(),
    }
}

/// The keyword that opens a type definition: exported or not.
pub open spec fn type_keyword(exported: bool) -> Seq<char> {
    if exported {
        "export type "@
    } else {
        "type "@
    }
}

/// The text of one type definition: its description and label comments, its
/// constraint comments, and its declaration.
pub open spec fn type_def_text(cfg: LuauConfigModel, d: TypeDefModel) -> Seq<char> {
    (if cfg.include_descriptions {
        comment_line(d.description) + comment_line(d.label)
    } else {
        Seq::empty()
    }) + (if cfg.include_constraints {
        constraints_text(d.constraints, Seq::empty())
    } else {
        Seq::empty()
    }) + type_keyword(d.exported) + d.name + " = "@ + type_text(cfg, d.ty, 0, false)
}

/// The definitions after the root, each preceded by a blank line.
pub open spec fn definitions_text(cfg: LuauConfigModel, ds: Seq<TypeDefModel>) -> Seq<char>
    decreases ds.len(),
{
    if ds.len() == 0 {
        Seq::empty()
    } else {
        definitions_text(cfg, ds.drop_last()) + "\n\n"@ + type_def_text(cfg, ds.last())
    }
}

/// The root definition followed by the other definitions.
pub open spec fn module_body(cfg: LuauConfigModel, m: TypeModuleModel) -> Seq<char> {
    (match m.root_type {
        Some(d) => type_def_text(cfg, d),
        None => Seq::empty(),
    }) + definitions_text(cfg, m.definitions)
}

/// `s`, with a newline added unless it already ends with one.
pub open spec fn with_final_newline(s: Seq<char>) -> Seq<char> {
    if s.len() > 0 && s.last() == '\n' {
        s
    } else {
        s.push('\n')
    }
}

/// The whole generated Luau file.
pub open spec fn module_text(cfg: LuauConfigModel, m: TypeModuleModel) -> Seq<char> {
    let body = with_final_newline(module_body(cfg, m));
    if cfg.module_export {
        body + "\nreturn {}\n"@
    } else {
        body
    }
}

// ---------------------------------------------------------------------------
// Laws
// ---------------------------------------------------------------------------

/// Escaping one more piece of text.
pub proof fn lemma_escape_concat(a: Seq<char>, b: Seq<char>)
    ensures
        escape_text(a + b) == escape_text(a) + escape_text(b),
    decreases a.len(),
{
    if a.len() == 0 {
        assert(a + b == b);
        assert(escape_text(a) == Seq::<char>::empty());
        assert(escape_text(a) + escape_text(b) == escape_text(b));
    } else {
        lemma_escape_concat(a.drop_first(), b);
        assert((a + b)[0] == a[0]);
        assert((a + b).drop_first() == a.drop_first() + b);
        assert(escape_char(a[0]) + escape_text(a.drop_first() + b) == escape_char(a[0]) + (
        escape_text(a.drop_first()) + escape_text(b)));
        assert(escape_char(a[0]) + (escape_text(a.drop_first()) + escape_text(b)) == (
        escape_char(a[0]) + escape_text(a.drop_first())) + escape_text(b));
    }
}

/// Law: reading an escaped string body back gives the original text, so
/// escaping loses nothing and two different texts never escape alike.
pub proof fn law_escape_roundtrip(s: Seq<char>)
    ensures
        unescape_text(escape_text(s)) == s,
    decreases s.len(),
{
    if s.len() > 0 {
        law_escape_roundtrip(s.drop_first());
        let c = s[0];
        let rest = escape_text(s.drop_first());
        let e = escape_char(c) + rest;
        assert(escape_text(s) == e);
        if c == '\\' || c == '"' || c == '\n' || c == '\r' || c == '\t' {
            assert(e[0] == '\\');
            assert(e.skip(2) == rest);
            assert(unescape_char(e[1]) == c);
        } else {
            assert(e[0] == c);
            assert(e.drop_first() == rest);
        }
        assert(s == seq![c] + s.drop_first());
    }
}

/// Law: the generated text always ends with a newline; with the module
/// export it ends with `return {}` on a line of its own.
pub proof fn law_module_text_ends_with_newline(cfg: LuauConfigModel, m: TypeModuleModel)
    ensures
        module_text(cfg, m).len() > 0,
        module_text(cfg, m).last() == '\n',
        cfg.module_export ==> module_text(cfg, m).len() >= "\nreturn {}\n"@.len() && module_text(
            cfg,
            m,
        ).skip(module_text(cfg, m).len() - "\nreturn {}\n"@.len()) == "\nreturn {}\n"@,
{
    reveal_strlit("\nreturn {}\n");
    let body = with_final_newline(module_body(cfg, m));
    assert(body.len() > 0 && body.last() == '\n');
    if cfg.module_export {
        let t = body + "\nreturn {}\n"@;
        assert(t.skip(t.len() - "\nreturn {}\n"@.len()) =~= "\nreturn {}\n"@);
    }
}

/// Law: a boolean literal type is written as the literal itself, and the
/// other simple types by their Luau names: a string literal in double quotes
/// with its text escaped, a number literal as its text, a reference as the
/// name it refers to.
pub proof fn law_simple_type_texts(
    cfg: LuauConfigModel,
    indent: nat,
    inline: bool,
    b: bool,
    text: Seq<char>,
)
    ensures
        type_text(cfg, TypeModel::BooleanLiteral(b), indent, inline) == (if b {
            "true"@
        } else {
            "false"@
        }),
        type_text(cfg, TypeModel::Any, indent, inline) == "any"@,
        type_text(cfg, TypeModel::Never, indent, inline) == "never"@,
        type_text(cfg, TypeModel::Nil, indent, inline) == "nil"@,
        type_text(cfg, TypeModel::Boolean, indent, inline) == "boolean"@,
        type_text(cfg, TypeModel::Number, indent, inline) == "number"@,
        type_text(cfg, TypeModel::String, indent, inline) == "string"@,
        type_text(cfg, TypeModel::StringLiteral(text), indent, inline) == "\""@ + escape_text(
            text,
        ) + "\""@,
        type_text(cfg, TypeModel::NumberLiteral(text), indent, inline) == text,
        type_text(cfg, TypeModel::Reference(text), indent, inline) == text,
{
}

/// Law: an array is written as its element in braces, and a map as the
/// indexer `[string]` of its value type in braces.
pub proof fn law_container_texts(cfg: LuauConfigModel, indent: nat, inline: bool, t: TypeModel)
    ensures
        !needs_parens_model(t) ==> type_text(cfg, TypeModel::Array(Box::new(t)), indent, inline)
            == "{ "@ + type_text(cfg, t, indent, true) + " }"@,
        type_text(cfg, TypeModel::Dictionary(Box::new(t)), indent, inline) == "{ [string]: "@
            + type_text(cfg, t, 0, true) + " }"@,
{
}

/// Law: each constraint is written on a line of its own, under its own tag,
/// with its value.
pub proof fn law_constraint_lines(ind: Seq<char>, text: Seq<char>, n: usize)
    ensures
        constraints_text(ConstraintsModel { minimum: Some(text), ..no_constraints() }, ind) == ind
            + "--- @minimum "@ + text + "\n"@,
        constraints_text(ConstraintsModel { maximum: Some(text), ..no_constraints() }, ind) == ind
            + "--- @maximum "@ + text + "\n"@,
        constraints_text(ConstraintsModel { exclusive_minimum: Some(text), ..no_constraints() }, ind)
            == ind + "--- @exclusiveMinimum "@ + text + "\n"@,
        constraints_text(ConstraintsModel { exclusive_maximum: Some(text), ..no_constraints() }, ind)
            == ind + "--- @exclusiveMaximum "@ + text + "\n"@,
        constraints_text(ConstraintsModel { multiple_of: Some(text), ..no_constraints() }, ind)
            == ind + "--- @multipleOf "@ + text + "\n"@,
        constraints_text(ConstraintsModel { min_length: Some(n), ..no_constraints() }, ind) == ind
            + "--- @minLength "@ + decimal(n as nat) + "\n"@,
        constraints_text(ConstraintsModel { max_length: Some(n), ..no_constraints() }, ind) == ind
            + "--- @maxLength "@ + decimal(n as nat) + "\n"@,
        constraints_text(ConstraintsModel { pattern: Some(text), ..no_constraints() }, ind) == ind
            + "--- @pattern "@ + text + "\n"@,
        constraints_text(ConstraintsModel { format: Some(text), ..no_constraints() }, ind) == ind
            + "--- @format "@ + text + "\n"@,
        constraints_text(ConstraintsModel { min_items: Some(n), ..no_constraints() }, ind) == ind
            + "--- @minItems "@ + decimal(n as nat) + "\n"@,
        constraints_text(ConstraintsModel { max_items: Some(n), ..no_constraints() }, ind) == ind
            + "--- @maxItems "@ + decimal(n as nat) + "\n"@,
        constraints_text(ConstraintsModel { unique_items: Some(true), ..no_constraints() }, ind)
            == ind + "--- @uniqueItems true\n"@,
        constraints_text(ConstraintsModel { unique_items: Some(false), ..no_constraints() }, ind)
            == Seq::<char>::empty(),
        constraints_text(ConstraintsModel { min_properties: Some(n), ..no_constraints() }, ind)
            == ind + "--- @minProperties "@ + decimal(n as nat) + "\n"@,
        constraints_text(ConstraintsModel { max_properties: Some(n), ..no_constraints() }, ind)
            == ind + "--- @maxProperties "@ + decimal(n as nat) + "\n"@,
        constraints_text(no_constraints(), ind) == Seq::<char>::empty(),
{
    let e = Seq::<char>::empty();
    let tl = ind + "--- @minimum "@ + text + "\n"@;
    assert(constraints_text(ConstraintsModel { minimum: Some(text), ..no_constraints() }, ind)
        =~= tl);
    assert(constraints_text(ConstraintsModel { maximum: Some(text), ..no_constraints() }, ind)
        =~= ind + "--- @maximum "@ + text + "\n"@);
    assert(constraints_text(ConstraintsModel { exclusive_minimum: Some(text), ..no_constraints() }, ind)
        =~= ind + "--- @exclusiveMinimum "@ + text + "\n"@);
    assert(constraints_text(ConstraintsModel { exclusive_maximum: Some(text), ..no_constraints() }, ind)
        =~= ind + "--- @exclusiveMaximum "@ + text + "\n"@);
    assert(constraints_text(ConstraintsModel { multiple_of: Some(text), ..no_constraints() }, ind)
        =~= ind + "--- @multipleOf "@ + text + "\n"@);
    assert(constraints_text(ConstraintsModel { min_length: Some(n), ..no_constraints() }, ind)
        =~= ind + "--- @minLength "@ + decimal(n as nat) + "\n"@);
    assert(constraints_text(ConstraintsModel { max_length: Some(n), ..no_constraints() }, ind)
        =~= ind + "--- @maxLength "@ + decimal(n as nat) + "\n"@);
    assert(constraints_text(ConstraintsModel { pattern: Some(text), ..no_constraints() }, ind)
        =~= ind + "--- @pattern "@ + text + "\n"@);
    assert(constraints_text(ConstraintsModel { format: Some(text), ..no_constraints() }, ind)
        =~= ind + "--- @format "@ + text + "\n"@);
    assert(constraints_text(ConstraintsModel { min_items: Some(n), ..no_constraints() }, ind)
        =~= ind + "--- @minItems "@ + decimal(n as nat) + "\n"@);
    assert(constraints_text(ConstraintsModel { max_items: Some(n), ..no_constraints() }, ind)
        =~= ind + "--- @maxItems "@ + decimal(n as nat) + "\n"@);
    assert(constraints_text(ConstraintsModel { unique_items: Some(true), ..no_constraints() }, ind)
        =~= ind + "--- @uniqueItems true\n"@);
    assert(constraints_text(ConstraintsModel { unique_items: Some(false), ..no_constraints() }, ind)
        =~= e);
    assert(constraints_text(ConstraintsModel { min_properties: Some(n), ..no_constraints() }, ind)
        =~= ind + "--- @minProperties "@ + decimal(n as nat) + "\n"@);
    assert(constraints_text(ConstraintsModel { max_properties: Some(n), ..no_constraints() }, ind)
        =~= ind + "--- @maxProperties "@ + decimal(n as nat) + "\n"@);
    assert(constraints_text(no_constraints(), ind) =~= e);
}

/// Law: a property is declared as its name, a colon and its type (in
/// parentheses when it is a union or intersection), followed by `?` exactly
/// when it is optional, and a comma; without descriptions or constraints
/// nothing else is written.
pub proof fn law_property_line(cfg: LuauConfigModel, p: PropertyModel, ind: Seq<char>)
    requires
        !cfg.include_descriptions,
        !cfg.include_constraints,
    ensures
        property_text(cfg, p, ind) == ind + p.name + ": "@ + (if needs_parens_model(p.ty) {
            "("@ + type_text(cfg, p.ty, 0, true) + ")"@
        } else {
            type_text(cfg, p.ty, 0, true)
        }) + (if p.optional {
            "?"@
        } else {
            Seq::<char>::empty()
        }) + ",\n"@,
{
    assert(property_text(cfg, p, ind) =~= ind + p.name + ": "@ + (if needs_parens_model(p.ty) {
        "("@ + type_text(cfg, p.ty, 0, true) + ")"@
    } else {
        type_text(cfg, p.ty, 0, true)
    }) + (if p.optional {
        "?"@
    } else {
        Seq::<char>::empty()
    }) + ",\n"@);
}

/// Law: a type definition is declared `export type` when exported and
/// `type` otherwise, then its name, ` = ` and its type; without descriptions
/// or constraints nothing else is written.
pub proof fn law_type_def_line(cfg: LuauConfigModel, d: TypeDefModel)
    requires
        !cfg.include_descriptions,
        !cfg.include_constraints,
    ensures
        type_def_text(cfg, d) == (if d.exported {
            "export type "@
        } else {
            "type "@
        }) + d.name + " = "@ + type_text(cfg, d.ty, 0, false),
{
    assert(type_def_text(cfg, d) =~= (if d.exported {
        "export type "@
    } else {
        "type "@
    }) + d.name + " = "@ + type_text(cfg, d.ty, 0, false));
}

/// Constraints, cleared when `clear` holds.
pub open spec fn cleared_constraints(c: ConstraintsModel, clear: bool) -> ConstraintsModel {
    if clear {
        no_constraints()
    } else {
        c
    }
}

/// A comment, cleared when `clear` holds.
pub open spec fn cleared_text(t: Option<Seq<char>>, clear: bool) -> Option<Seq<char>> {
    if clear {
        None
    } else {
        t
    }
}

/// A type with the constraints (`cc`) or the descriptions (`cd`) of all
/// its properties, at every depth, cleared.
pub open spec fn stripped_type(t: TypeModel, cc: bool, cd: bool) -> TypeModel
    decreases t,
{
    match t {
        TypeModel::Array(e) => TypeModel::Array(Box::new(stripped_type(*e, cc, cd))),
        TypeModel::Object(o) => TypeModel::Object(stripped_object(o, cc, cd)),
        TypeModel::Union(ts) => TypeModel::Union(stripped_types(ts, cc, cd)),
        TypeModel::EnumUnion(ts) => TypeModel::EnumUnion(stripped_types(ts, cc, cd)),
        TypeModel::Intersection(ts) => TypeModel::Intersection(stripped_types(ts, cc, cd)),
        TypeModel::Dictionary(v) => TypeModel::Dictionary(Box::new(stripped_type(*v, cc, cd))),
        TypeModel::Tuple(ts) => TypeModel::Tuple(stripped_types(ts, cc, cd)),
        _ => t,
    }
}

/// Types, each stripped as `stripped_type` says.
pub open spec fn stripped_types(ts: Seq<TypeModel>, cc: bool, cd: bool) -> Seq<TypeModel>
    decreases ts,
{
    if ts.len() == 0 {
        Seq::empty()
    } else {
        stripped_types(ts.drop_last(), cc, cd).push(stripped_type(ts.last(), cc, cd))
    }
}

/// An object type stripped as `stripped_type` says.
pub open spec fn stripped_object(o: ObjectModel, cc: bool, cd: bool) -> ObjectModel
    decreases o,
{
    ObjectModel {
        properties: stripped_properties(o.properties, cc, cd),
        additional_properties: stripped_additional(o.additional_properties, cc, cd),
    }
}

/// Properties, each stripped as `stripped_type` says.
pub open spec fn stripped_properties(ps: Seq<PropertyModel>, cc: bool, cd: bool) -> Seq<
    PropertyModel,
>
    decreases ps,
{
    if ps.len() == 0 {
        Seq::empty()
    } else {
        stripped_properties(ps.drop_last(), cc, cd).push(stripped_property(ps.last(), cc, cd))
    }
}

/// A property with its constraints or description cleared, and its type stripped.
pub open spec fn stripped_property(p: PropertyModel, cc: bool, cd: bool) -> PropertyModel
    decreases p,
{
    PropertyModel {
        ty: stripped_type(p.ty, cc, cd),
        description: cleared_text(p.description, cd),
        constraints: cleared_constraints(p.constraints, cc),
        extra_constraints: cleared_constraints(p.extra_constraints, cc),
        ..p
    }
}

/// Additional properties with their type stripped.
pub open spec fn stripped_additional(a: Option<AdditionalModel>, cc: bool, cd: bool) -> Option<
    AdditionalModel,
>
    decreases a,
{
    match a {
        Some(AdditionalModel::Schema(t)) => Some(
            AdditionalModel::Schema(Box::new(stripped_type(*t, cc, cd))),
        ),
        _ => a,
    }
}

/// A type definition with its constraints or its description and label
/// cleared, and its type stripped.
pub open spec fn stripped_def(d: TypeDefModel, cc: bool, cd: bool) -> TypeDefModel {
    TypeDefModel {
        description: cleared_text(d.description, cd),
        label: cleared_text(d.label, cd),
        constraints: cleared_constraints(d.constraints, cc),
        ty: stripped_type(d.ty, cc, cd),
        ..d
    }
}

/// A module with every type definition stripped.
pub open spec fn stripped_module(m: TypeModuleModel, cc: bool, cd: bool) -> TypeModuleModel {
    TypeModuleModel {
        root_type: match m.root_type {
            Some(d) => Some(stripped_def(d, cc, cd)),
            None => None,
        },
        definitions: m.definitions.map_values(|d: TypeDefModel| stripped_def(d, cc, cd)),
    }
}

/// Whether the generator writes nothing of what is cleared.
pub open spec fn clears_unwritten(cfg: LuauConfigModel, cc: bool, cd: bool) -> bool {
    (cc ==> !cfg.include_constraints) && (cd ==> !cfg.include_descriptions)
}

/// Stripping keeps whether a type is parenthesized among members.
proof fn lemma_stripped_parens(t: TypeModel, cc: bool, cd: bool)
    ensures
        needs_parens_model(stripped_type(t, cc, cd)) == needs_parens_model(t),
{
}

/// Stripping does not change how a type is written.
proof fn lemma_type_text_stripped(
    cfg: LuauConfigModel,
    t: TypeModel,
    indent: nat,
    inline: bool,
    cc: bool,
    cd: bool,
)
    requires
        clears_unwritten(cfg, cc, cd),
    ensures
        type_text(cfg, stripped_type(t, cc, cd), indent, inline) == type_text(cfg, t, indent, inline),
    decreases t,
{
    match t {
        TypeModel::Array(e) => {
            lemma_type_text_stripped(cfg, *e, indent, true, cc, cd);
            lemma_stripped_parens(*e, cc, cd);
        },
        TypeModel::Object(o) => {
            lemma_inline_properties_stripped(cfg, o.properties, cc, cd);
            lemma_inline_additional_stripped(cfg, o.additional_properties, cc, cd);
            lemma_block_properties_stripped(
                cfg,
                o.properties,
                repeat(cfg.indent, indent + 1),
                cc,
                cd,
            );
            lemma_block_additional_stripped(
                cfg,
                o.additional_properties,
                repeat(cfg.indent, indent + 1),
                cc,
                cd,
            );
            let so = stripped_object(o, cc, cd);
            assert(stripped_type(t, cc, cd) == TypeModel::Object(so));
            assert(inline_parts(cfg, so) == inline_parts(cfg, o));
        },
        TypeModel::Union(ts) => {
            lemma_members_text_stripped(cfg, ts, indent, true, cc, cd);
        },
        TypeModel::EnumUnion(ts) => {
            lemma_members_text_stripped(cfg, ts, indent, false, cc, cd);
        },
        TypeModel::Intersection(ts) => {
            lemma_members_text_stripped(cfg, ts, indent, true, cc, cd);
        },
        TypeModel::Dictionary(v) => {
            lemma_type_text_stripped(cfg, *v, 0, true, cc, cd);
        },
        TypeModel::Tuple(ts) => {
            lemma_members_text_stripped(cfg, ts, indent, false, cc, cd);
        },
        _ => {},
    }
}

/// Stripping does not change how members are written.
proof fn lemma_members_text_stripped(
    cfg: LuauConfigModel,
    ts: Seq<TypeModel>,
    indent: nat,
    parens: bool,
    cc: bool,
    cd: bool,
)
    requires
        clears_unwritten(cfg, cc, cd),
    ensures
        members_text(cfg, stripped_types(ts, cc, cd), indent, parens) == members_text(
            cfg,
            ts,
            indent,
            parens,
        ),
    decreases ts,
{
    if ts.len() > 0 {
        let st = stripped_types(ts, cc, cd);
        assert(st.drop_last() == stripped_types(ts.drop_last(), cc, cd));
        assert(st.last() == stripped_type(ts.last(), cc, cd));
        lemma_members_text_stripped(cfg, ts.drop_last(), indent, parens, cc, cd);
        lemma_type_text_stripped(cfg, ts.last(), indent, true, cc, cd);
        lemma_stripped_parens(ts.last(), cc, cd);
    }
}

/// Stripping does not change how properties are written on one line.
proof fn lemma_inline_properties_stripped(
    cfg: LuauConfigModel,
    ps: Seq<PropertyModel>,
    cc: bool,
    cd: bool,
)
    requires
        clears_unwritten(cfg, cc, cd),
    ensures
        inline_properties(cfg, stripped_properties(ps, cc, cd)) == inline_properties(cfg, ps),
    decreases ps,
{
    if ps.len() > 0 {
        let sp = stripped_properties(ps, cc, cd);
        assert(sp.drop_last() == stripped_properties(ps.drop_last(), cc, cd));
        assert(sp.last() == stripped_property(ps.last(), cc, cd));
        lemma_inline_properties_stripped(cfg, ps.drop_last(), cc, cd);
        lemma_type_text_stripped(cfg, ps.last().ty, 0, true, cc, cd);
    }
}

/// Stripping does not change how additional properties are written on one line.
proof fn lemma_inline_additional_stripped(
    cfg: LuauConfigModel,
    a: Option<AdditionalModel>,
    cc: bool,
    cd: bool,
)
    requires
        clears_unwritten(cfg, cc, cd),
    ensures
        inline_additional(cfg, stripped_additional(a, cc, cd)) == inline_additional(cfg, a),
    decreases a,
{
    if let Some(AdditionalModel::Schema(t)) = a {
        lemma_type_text_stripped(cfg, *t, 0, true, cc, cd);
    }
}

/// Stripping does not change the lines of properties.
proof fn lemma_block_properties_stripped(
    cfg: LuauConfigModel,
    ps: Seq<PropertyModel>,
    ind: Seq<char>,
    cc: bool,
    cd: bool,
)
    requires
        clears_unwritten(cfg, cc, cd),
    ensures
        block_properties_text(cfg, stripped_properties(ps, cc, cd), ind) == block_properties_text(
            cfg,
            ps,
            ind,
        ),
    decreases ps,
{
    if ps.len() > 0 {
        let sp = stripped_properties(ps, cc, cd);
        assert(sp.drop_last() == stripped_properties(ps.drop_last(), cc, cd));
        assert(sp.last() == stripped_property(ps.last(), cc, cd));
        lemma_block_properties_stripped(cfg, ps.drop_last(), ind, cc, cd);
        lemma_property_text_stripped(cfg, ps.last(), ind, cc, cd);
    }
}

/// Stripping does not change the lines of one property.
proof fn lemma_property_text_stripped(
    cfg: LuauConfigModel,
    p: PropertyModel,
    ind: Seq<char>,
    cc: bool,
    cd: bool,
)
    requires
        clears_unwritten(cfg, cc, cd),
    ensures
        property_text(cfg, stripped_property(p, cc, cd), ind) == property_text(cfg, p, ind),
    decreases p,
{
    lemma_type_text_stripped(cfg, p.ty, 0, true, cc, cd);
    lemma_stripped_parens(p.ty, cc, cd);
}

/// Stripping does not change the line of additional properties.
proof fn lemma_block_additional_stripped(
    cfg: LuauConfigModel,
    a: Option<AdditionalModel>,
    ind: Seq<char>,
    cc: bool,
    cd: bool,
)
    requires
        clears_unwritten(cfg, cc, cd),
    ensures
        block_additional_text(cfg, stripped_additional(a, cc, cd), ind) == block_additional_text(
            cfg,
            a,
            ind,
        ),
    decreases a,
{
    if let Some(AdditionalModel::Schema(t)) = a {
        lemma_type_text_stripped(cfg, *t, 0, true, cc, cd);
    }
}

/// Stripping does not change the definitions after the root.
proof fn lemma_definitions_text_stripped(
    cfg: LuauConfigModel,
    ds: Seq<TypeDefModel>,
    cc: bool,
    cd: bool,
)
    requires
        clears_unwritten(cfg, cc, cd),
    ensures
        definitions_text(cfg, ds.map_values(|d: TypeDefModel| stripped_def(d, cc, cd)))
            == definitions_text(cfg, ds),
    decreases ds.len(),
{
    if ds.len() > 0 {
        let sd = ds.map_values(|d: TypeDefModel| stripped_def(d, cc, cd));
        assert(sd.drop_last() =~= ds.drop_last().map_values(
            |d: TypeDefModel| stripped_def(d, cc, cd),
        ));
        lemma_definitions_text_stripped(cfg, ds.drop_last(), cc, cd);
        lemma_type_text_stripped(cfg, ds.last().ty, 0, false, cc, cd);
    }
}

/// Law: the generator writes constraints only when its configuration keeps
/// them, and descriptions and labels only when it keeps those: with
/// `include_constraints` off, clearing every constraint of a module leaves
/// the text unchanged, and with `include_descriptions` off, so does clearing
/// every description and label.
pub proof fn law_generator_config(cfg: LuauConfigModel, m: TypeModuleModel, cc: bool, cd: bool)
    requires
        cc ==> !cfg.include_constraints,
        cd ==> !cfg.include_descriptions,
    ensures
        module_text(cfg, stripped_module(m, cc, cd)) == module_text(cfg, m),
{
    lemma_definitions_text_stripped(cfg, m.definitions, cc, cd);
    if let Some(d) = m.root_type {
        lemma_type_text_stripped(cfg, d.ty, 0, false, cc, cd);
    }
}

// ---------------------------------------------------------------------------
// Generator
// ---------------------------------------------------------------------------


fn push_text_line(out: &mut String, ind: &str, tag: &str, v: &Option<String>)
    ensures
        final(out)@ == old(out)@ + text_line(ind@, tag@, crate::ir::types::opt_text(*v)),
{
    if let Some(x) = v {
        let ghost before = out@;
        out.append(ind);
        out.append(tag);
        out.append(x.as_str());
        out.append("\n");
        assert(out@ =~= before + (ind@ + tag@ + x@ + "\n"@));
    } else {
        assert(out@ =~= old(out)@ + Seq::<char>::empty());
    }
}

fn push_count_line(out: &mut String, ind: &str, tag: &str, v: Option<usize>)
    ensures
        final(out)@ == old(out)@ + count_line(ind@, tag@, v),
{
    if let Some(n) = v {
        let ghost before = out@;
        out.append(ind);
        out.append(tag);
        push_decimal(out, n);
        out.append("\n");
        assert(out@ =~= before + (ind@ + tag@ + decimal(n as nat) + "\n"@));
    } else {
        assert(out@ =~= old(out)@ + Seq::<char>::empty());
    }
}

impl LuauGenerator {
    /// Escape a string for use in a double-quoted Luau string.
    pub fn escape_string(&self, s: &str) -> (r: String)
        ensures
            r@ == escape_text(s@),
    {
        let cs = chars_of(s);
        let mut out = String::new();
        let mut i: usize = 0;
        while i < cs.len()
            invariant
                i <= cs@.len(),
                cs@ == s@,
                out@ == escape_text(cs@.take(i as int)),
            decreases cs@.len() - i,
        {
            let c = cs[i];
            proof {
                assert(cs@.take(i + 1) == cs@.take(i as int) + seq![c]);
                lemma_escape_concat(cs@.take(i as int), seq![c]);
                assert(seq![c].drop_first() =~= Seq::<char>::empty());
                assert(escape_text(seq![c]) == escape_char(c) + escape_text(Seq::<char>::empty()));
                assert(escape_text(seq![c]) =~= escape_char(c));
            }
            let ghost before = out@;
            if c == '\\' {
                push_char(&mut out, '\\');
                push_char(&mut out, '\\');
            } else if c == '"' {
                push_char(&mut out, '\\');
                push_char(&mut out, '"');
            } else if c == '\n' {
                push_char(&mut out, '\\');
                push_char(&mut out, 'n');
            } else if c == '\r' {
                push_char(&mut out, '\\');
                push_char(&mut out, 'r');
            } else if c == '\t' {
                push_char(&mut out, '\\');
                push_char(&mut out, 't');
            } else {
                push_char(&mut out, c);
            }
            assert(out@ =~= before + escape_char(c));
            i += 1;
        }
        assert(cs@.take(cs@.len() as int) == cs@);
        out
    }

    /// Create a new Luau generator with default configuration.
    pub fn new() -> (r: Self)
        ensures
            r@ == (LuauConfigModel {
                indent: "    "@,
                include_constraints: true,
                include_descriptions: true,
                module_export: true,
            }),
    {
        LuauGenerator::with_config(LuauConfig::default())
    }

    /// Create a new Luau generator with custom configuration.
    pub fn with_config(config: LuauConfig) -> (r: Self)
        ensures
            r@ == config@,
    {
        LuauGenerator { config }
    }

    /// Generate Luau code from a type module.
    pub fn generate(&self, module: &TypeModule) -> (r: String)
        ensures
            r@ == module_text(self@, module@),
    {
        let mut output = String::new();
        if let Some(root_type) = &module.root_type {
            let s = self.generate_type_def(root_type);
            output.append(s.as_str());
        }
        assert(output@ == (match module@.root_type {
            Some(d) => type_def_text(self@, d),
            None => Seq::empty(),
        }));
        let ghost head = output@;
        let mut i: usize = 0;
        while i < module.definitions.len()
            invariant
                i <= module.definitions@.len(),
                output@ == head + definitions_text(
                    self@,
                    crate::ir::types::defs_model(module.definitions@).take(i as int),
                ),
            decreases module.definitions@.len() - i,
        {
            let ghost ds = crate::ir::types::defs_model(module.definitions@);
            assert(ds.take(i + 1).drop_last() == ds.take(i as int));
            assert(ds.take(i + 1).last() == module.definitions@[i as int]@);
            let ghost before = output@;
            output.append("\n\n");
            let s = self.generate_type_def(&module.definitions[i]);
            output.append(s.as_str());
            assert(output@ =~= before + ("\n\n"@ + s@));
            i += 1;
        }
        assert(crate::ir::types::defs_model(module.definitions@).take(
            module.definitions@.len() as int,
        ) == crate::ir::types::defs_model(module.definitions@));
        assert(output@ == module_body(self@, module@));
        let cs = chars_of(output.as_str());
        if cs.len() == 0 || cs[cs.len() - 1] != '\n' {
            push_char(&mut output, '\n');
        }
        if self.config.module_export {
            output.append("\nreturn {}\n");
        }
        output
    }

    /// Generate a type definition.
    fn generate_type_def(&self, def: &TypeDef) -> (r: String)
        ensures
            r@ == type_def_text(self@, def@),
    {
        let mut output = String::new();
        if self.config.include_descriptions {
            if let Some(desc) = &def.description {
                output.append("--- ");
                output.append(desc.as_str());
                output.append("\n");
            }
            let ghost mid = output@;
            if let Some(label) = &def.label {
                output.append("--- ");
                output.append(label.as_str());
                output.append("\n");
            }
            assert(output@ =~= comment_line(def@.description) + comment_line(def@.label));
        }
        let ghost comments = output@;
        proof {
            reveal_strlit("");
            assert(""@ =~= Seq::<char>::empty());
        }
        if self.config.include_constraints {
            let lines = self.generate_constraints(&def.constraints, "");
            output.append(lines.as_str());
        }
        assert(output@ =~= comments + (if self@.include_constraints {
            constraints_text(def@.constraints, Seq::empty())
        } else {
            Seq::<char>::empty()
        }));
        let ghost head = output@;
        let type_str = self.generate_type(&def.ty, 0);
        if def.exported {
            output.append("export type ");
        } else {
            output.append("type ");
        }
        output.append(def.name.as_str());
        output.append(" = ");
        output.append(type_str.as_str());
        assert(output@ =~= head + type_keyword(def@.exported) + def@.name + " = "@ + type_str@);
        output
    }

    /// Generate a type representation.
    fn generate_type(&self, ty: &Type, indent: usize) -> (r: String)
        requires
            indent < usize::MAX,
        ensures
            r@ == type_text(self@, ty@, indent as nat, false),
    {
        self.generate_type_inner(ty, indent, false)
    }

    /// Generate a type representation with optional inline mode.
    fn generate_type_inner(&self, ty: &Type, indent: usize, inline: bool) -> (r: String)
        requires
            indent < usize::MAX,
        ensures
            r@ == type_text(self@, ty@, indent as nat, inline),
        decreases ty, 2nat,
    {
        match ty {
            Type::Any => owned("any"),
            Type::Never => owned("never"),
            Type::Nil => owned("nil"),
            Type::Boolean => owned("boolean"),
            Type::Number => owned("number"),
            Type::String => owned("string"),
            Type::StringLiteral(s) => {
                let mut out = owned("\"");
                let e = self.escape_string(s.as_str());
                out.append(e.as_str());
                out.append("\"");
                out
            },
            Type::NumberLiteral(n) => owned(n.as_str()),
            Type::BooleanLiteral(b) => if *b {
                owned("true")
            } else {
                owned("false")
            },
            Type::Array(elem) => self.generate_array_type_inner(elem, indent, inline),
            Type::Object(obj) => self.generate_object_type_inner(obj, indent, inline),
            Type::Union(types) => self.generate_union_type_inner(types, indent),
            Type::EnumUnion(types) => self.generate_enum_union_type_inner(types, indent),
            Type::Intersection(types) => self.generate_intersection_type_inner(types, indent),
            Type::Reference(name) => owned(name.as_str()),
            Type::Dictionary(value) => self.generate_map_type(value),
            Type::Tuple(elements) => self.generate_tuple_type(elements, indent),
        }
    }

    /// Generate an array type.
    fn generate_array_type_inner(&self, elem: &Type, indent: usize, inline: bool) -> (r: String)
        requires
            indent < usize::MAX,
        ensures
            r@ == type_text(self@, TypeModel::Array(Box::new(elem@)), indent as nat, inline),
        decreases elem, 3nat,
    {
        let elem_str = self.generate_type_inner(elem, indent, true);
        if elem.needs_parens() {
            let mut out = owned("{ (");
            out.append(elem_str.as_str());
            out.append(") }");
            out
        } else {
            let mut out = owned("{ ");
            out.append(elem_str.as_str());
            out.append(" }");
            out
        }
    }

    /// Generate an object type with optional inline mode.
    fn generate_object_type_inner(&self, obj: &ObjectType, indent: usize, inline: bool) -> (r: String)
        requires
            indent < usize::MAX,
        ensures
            r@ == type_text(self@, TypeModel::Object(obj@), indent as nat, inline),
        decreases obj, 1nat,
    {
        if inline {
            return self.generate_object_type_inline(obj);
        }
        let ghost ps = crate::ir::types::object_model(*obj).properties;
        let ghost inner = repeat(self@.indent, indent as nat + 1);
        let mut output = owned("{\n");
        let mut inner_indent = String::new();
        push_repeat(&mut inner_indent, self.config.indent.as_str(), indent + 1);
        assert(inner_indent@ =~= inner);
        proof {
            lemma_properties_model(obj.properties@);
        }
        let mut i: usize = 0;
        while i < obj.properties.len()
            invariant
                i <= obj.properties@.len(),
                indent < usize::MAX,
                inner_indent@ == inner,
                ps == properties_model(obj.properties@),
                ps.len() == obj.properties@.len(),
                forall|k: int| 0 <= k < obj.properties@.len() ==> #[trigger] ps[k] == obj.properties@[k]@,
                output@ == "{\n"@ + block_properties_text(self@, ps.take(i as int), inner),
            decreases obj.properties@.len() - i,
        {
            assert(ps.take(i + 1).drop_last() == ps.take(i as int));
            assert(ps.take(i + 1).last() == obj.properties@[i as int]@);
            let s = self.generate_property(&obj.properties[i], inner_indent.as_str());
            let ghost before = output@;
            output.append(s.as_str());
            assert(output@ =~= "{\n"@ + block_properties_text(self@, ps.take(i + 1), inner));
            i += 1;
        }
        assert(ps.take(ps.len() as int) == ps);
        let ghost mid = output@;
        if let Some(additional) = &obj.additional_properties {
            let s = self.generate_additional_properties(additional, inner_indent.as_str());
            output.append(s.as_str());
        }
        assert(output@ =~= mid + block_additional_text(
            self@,
            crate::ir::types::object_model(*obj).additional_properties,
            inner,
        ));
        let ghost mid2 = output@;
        push_repeat(&mut output, self.config.indent.as_str(), indent);
        output.append("}");
        assert(output@ =~= mid2 + repeat(self@.indent, indent as nat) + "}"@);
        output
    }

    /// Generate an object type in inline (single-line) format.
    fn generate_object_type_inline(&self, obj: &ObjectType) -> (r: String)
        ensures
            r@ == type_text(self@, TypeModel::Object(obj@), 0, true),
        decreases obj, 0nat,
    {
        let ghost ps = crate::ir::types::object_model(*obj).properties;
        proof {
            lemma_properties_model(obj.properties@);
        }
        let mut parts: Vec<String> = Vec::new();
        let mut i: usize = 0;
        while i < obj.properties.len()
            invariant
                i <= obj.properties@.len(),
                ps == properties_model(obj.properties@),
                ps.len() == obj.properties@.len(),
                forall|k: int| 0 <= k < obj.properties@.len() ==> #[trigger] ps[k] == obj.properties@[k]@,
                texts(parts@) == inline_properties(self@, ps.take(i as int)),
            decreases obj.properties@.len() - i,
        {
            assert(ps.take(i + 1).drop_last() == ps.take(i as int));
            assert(ps.take(i + 1).last() == obj.properties@[i as int]@);
            let prop = &obj.properties[i];
            let type_str = self.generate_type_inner(&prop.ty, 0, true);
            let mut part = owned(prop.name.as_str());
            part.append(": ");
            part.append(type_str.as_str());
            if prop.optional {
                part.append("?");
            }
            assert(part@ =~= prop@.name + ": "@ + type_str@ + optional_marker(prop@.optional));
            let ghost before = parts@;
            parts.push(part);
            assert(texts(parts@) =~= texts(before).push(part@));
            i += 1;
        }
        assert(ps.take(ps.len() as int) == ps);
        let ghost prop_parts = texts(parts@);
        if let Some(additional) = &obj.additional_properties {
            match additional {
                AdditionalProperties::Any => {
                    parts.push(owned("[string]: any"));
                },
                AdditionalProperties::False => {},
                AdditionalProperties::Schema(ty) => {
                    let type_str = self.generate_type_inner(ty, 0, true);
                    let mut part = owned("[string]: ");
                    part.append(type_str.as_str());
                    parts.push(part);
                },
            }
        }
        assert(texts(parts@) =~= prop_parts + inline_additional(
            self@,
            crate::ir::types::object_model(*obj).additional_properties,
        ));
        assert(inline_parts(self@, obj@) == prop_parts + inline_additional(
            self@,
            crate::ir::types::object_model(*obj).additional_properties,
        ));
        let joined = join_texts(&parts, ", ");
        let mut out = owned("{ ");
        out.append(joined.as_str());
        out.append(" }");
        assert(out@ =~= "{ "@ + join(inline_parts(self@, obj@), ", "@) + " }"@);
        out
    }

    /// The description and constraint comment lines of a property.
    fn generate_property_comments(&self, prop: &Property, indent_str: &str) -> (r: String)
        ensures
            r@ == (if self@.include_descriptions && prop@.description is Some {
                indent_str@ + "--- "@ + prop@.description->0 + "\n"@
            } else {
                Seq::empty()
            }) + (if self@.include_constraints {
                constraints_text(prop@.constraints, indent_str@) + constraints_text(
                    prop@.extra_constraints,
                    indent_str@,
                )
            } else {
                Seq::empty()
            }),
    {
        let mut output = String::new();
        if self.config.include_descriptions {
            if let Some(desc) = &prop.description {
                output.append(indent_str);
                output.append("--- ");
                output.append(desc.as_str());
                output.append("\n");
            }
        }
        let ghost a = output@;
        assert(a =~= (if self@.include_descriptions && prop@.description is Some {
            indent_str@ + "--- "@ + prop@.description->0 + "\n"@
        } else {
            Seq::empty()
        }));
        if self.config.include_constraints && !prop.constraints.is_empty() {
            let s = self.generate_constraints(&prop.constraints, indent_str);
            output.append(s.as_str());
        }
        let ghost b = output@;
        if self.config.include_constraints && !prop.extra_constraints.is_empty() {
            let s = self.generate_constraints(&prop.extra_constraints, indent_str);
            output.append(s.as_str());
        }
        proof {
            lemma_empty_constraints_text(indent_str@);
        }
        assert(b =~= a + (if self@.include_constraints {
            constraints_text(prop@.constraints, indent_str@)
        } else {
            Seq::empty()
        }));
        assert(output@ =~= a + (if self@.include_constraints {
            constraints_text(prop@.constraints, indent_str@) + constraints_text(
                prop@.extra_constraints,
                indent_str@,
            )
        } else {
            Seq::empty()
        }));
        output
    }

    /// Generate a property.
    fn generate_property(&self, prop: &Property, indent_str: &str) -> (r: String)
        ensures
            r@ == property_text(self@, prop@, indent_str@),
        decreases prop, 0nat,
    {
        let mut output = self.generate_property_comments(prop, indent_str);
        let ghost b = output@;
        let type_str = self.generate_type_inner(&prop.ty, 0, true);
        let ghost ts = type_str@;
        output.append(indent_str);
        output.append(prop.name.as_str());
        output.append(": ");
        if prop.ty.needs_parens() {
            output.append("(");
            output.append(type_str.as_str());
            output.append(")");
        } else {
            output.append(type_str.as_str());
        }
        if prop.optional {
            output.append("?");
        }
        output.append(",\n");
        assert(output@ =~= b + indent_str@ + prop@.name + ": "@ + (if needs_parens_model(
            prop@.ty,
        ) {
            parenthesized(ts)
        } else {
            ts
        }) + optional_marker(prop@.optional) + ",\n"@);
        output
    }

    /// Generate additional properties.
    fn generate_additional_properties(&self, additional: &AdditionalProperties, indent_str: &str) -> (r: String)
        ensures
            r@ == block_additional_text(self@, Some(additional@), indent_str@),
        decreases additional, 0nat,
    {
        match additional {
            AdditionalProperties::Any => {
                let mut out = owned(indent_str);
                out.append("[string]: any,\n");
                out
            },
            AdditionalProperties::False => String::new(),
            AdditionalProperties::Schema(ty) => {
                let type_str = self.generate_type_inner(ty, 0, true);
                let mut out = owned(indent_str);
                out.append("[string]: ");
                out.append(type_str.as_str());
                out.append(",\n");
                out
            },
        }
    }

    /// Generate constraint annotations.
    fn generate_constraints(&self, constraints: &Constraints, indent_str: &str) -> (r: String)
        ensures
            r@ == constraints_text(constraints@, indent_str@),
    {
        let mut output = String::new();
        push_text_line(&mut output, indent_str, "--- @minimum ", &constraints.minimum);
        push_text_line(&mut output, indent_str, "--- @maximum ", &constraints.maximum);
        push_text_line(
            &mut output,
            indent_str,
            "--- @exclusiveMinimum ",
            &constraints.exclusive_minimum,
        );
        push_text_line(
            &mut output,
            indent_str,
            "--- @exclusiveMaximum ",
            &constraints.exclusive_maximum,
        );
        push_text_line(&mut output, indent_str, "--- @multipleOf ", &constraints.multiple_of);
        push_count_line(&mut output, indent_str, "--- @minLength ", constraints.min_length);
        push_count_line(&mut output, indent_str, "--- @maxLength ", constraints.max_length);
        push_text_line(&mut output, indent_str, "--- @pattern ", &constraints.pattern);
        push_text_line(&mut output, indent_str, "--- @format ", &constraints.format);
        push_count_line(&mut output, indent_str, "--- @minItems ", constraints.min_items);
        push_count_line(&mut output, indent_str, "--- @maxItems ", constraints.max_items);
        let ghost before = output@;
        if let Some(true) = constraints.unique_items {
            output.append(indent_str);
            output.append("--- @uniqueItems true\n");
        }
        assert(output@ =~= before + (if constraints@.unique_items == Some(true) {
            indent_str@ + "--- @uniqueItems true\n"@
        } else {
            Seq::empty()
        }));
        push_count_line(
            &mut output,
            indent_str,
            "--- @minProperties ",
            constraints.min_properties,
        );
        push_count_line(
            &mut output,
            indent_str,
            "--- @maxProperties ",
            constraints.max_properties,
        );
        assert(output@ =~= constraints_text(constraints@, indent_str@));
        output
    }

    /// The texts of the members of a union, an intersection or a tuple.
    fn generate_members(&self, types: &Vec<Type>, indent: usize, parens: bool) -> (r: Vec<String>)
        requires
            indent < usize::MAX,
        ensures
            texts(r@) == members_text(self@, types_model(types@), indent as nat, parens),
        decreases types, 0nat,
    {
        let ghost ts = types_model(types@);
        proof {
            lemma_types_model(types@);
        }
        let mut parts: Vec<String> = Vec::new();
        let mut i: usize = 0;
        while i < types.len()
            invariant
                i <= types@.len(),
                indent < usize::MAX,
                ts == types_model(types@),
                ts.len() == types@.len(),
                forall|k: int| 0 <= k < types@.len() ==> #[trigger] ts[k] == types@[k]@,
                texts(parts@) == members_text(self@, ts.take(i as int), indent as nat, parens),
            decreases types@.len() - i,
        {
            assert(ts.take(i + 1).drop_last() == ts.take(i as int));
            assert(ts.take(i + 1).last() == types@[i as int]@);
            let t = &types[i];
            let s = self.generate_type_inner(t, indent, true);
            let part = if parens && t.needs_parens() {
                let mut p = owned("(");
                p.append(s.as_str());
                p.append(")");
                p
            } else {
                s
            };
            let ghost before = parts@;
            parts.push(part);
            assert(texts(parts@) =~= texts(before).push(part@));
            i += 1;
        }
        assert(ts.take(ts.len() as int) == ts);
        parts
    }

    /// Generate a union type. Members are always rendered inline; enclosing
    /// parentheses (when needed) are added by the caller.
    fn generate_union_type_inner(&self, types: &Vec<Type>, indent: usize) -> (r: String)
        requires
            indent < usize::MAX,
        ensures
            r@ == join(members_text(self@, types_model(types@), indent as nat, true), " | "@),
        decreases types, 1nat,
    {
        let parts = self.generate_members(types, indent, true);
        join_texts(&parts, " | ")
    }

    /// Generate an enum-derived union of string literals. Never parenthesized.
    fn generate_enum_union_type_inner(&self, types: &Vec<Type>, indent: usize) -> (r: String)
        requires
            indent < usize::MAX,
        ensures
            r@ == join(members_text(self@, types_model(types@), indent as nat, false), " | "@),
        decreases types, 1nat,
    {
        let parts = self.generate_members(types, indent, false);
        join_texts(&parts, " | ")
    }

    /// Generate an intersection type. Members are always rendered inline;
    /// enclosing parentheses (when needed) are added by the caller.
    fn generate_intersection_type_inner(&self, types: &Vec<Type>, indent: usize) -> (r: String)
        requires
            indent < usize::MAX,
        ensures
            r@ == join(members_text(self@, types_model(types@), indent as nat, true), " & "@),
        decreases types, 1nat,
    {
        let parts = self.generate_members(types, indent, true);
        join_texts(&parts, " & ")
    }

    /// Generate a map type.
    fn generate_map_type(&self, value: &Type) -> (r: String)
        ensures
            r@ == "{ [string]: "@ + type_text(self@, value@, 0, true) + " }"@,
        decreases value, 3nat,
    {
        let value_str = self.generate_type_inner(value, 0, true);
        let mut out = owned("{ [string]: ");
        out.append(value_str.as_str());
        out.append(" }");
        out
    }

    /// Generate a tuple type.
    fn generate_tuple_type(&self, elements: &Vec<Type>, indent: usize) -> (r: String)
        requires
            indent < usize::MAX,
        ensures
            r@ == "{ "@ + join(members_text(self@, types_model(elements@), indent as nat, false), ", "@)
                + " }"@,
        decreases elements, 1nat,
    {
        let parts = self.generate_members(elements, indent, false);
        let joined = join_texts(&parts, ", ");
        let mut out = owned("{ ");
        out.append(joined.as_str());
        out.append(" }");
        out
    }
}

/// Empty constraints write no lines.
pub proof fn lemma_empty_constraints_text(ind: Seq<char>)
    ensures
        constraints_text(no_constraints(), ind) == Seq::<char>::empty(),
{
    assert(constraints_text(no_constraints(), ind) =~= Seq::<char>::empty());
}

impl Default for LuauGenerator {
    fn default() -> (r: Self)
        ensures
            r@ == (LuauConfigModel {
                indent: "    "@,
                include_constraints: true,
                include_descriptions: true,
                module_export: true,
            }),
    {
        LuauGenerator::new()
    }
}

} // verus!
