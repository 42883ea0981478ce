//! IR type definitions for representing schema types.
//!
//! Every IR value has a mathematical model (its view, `@`) built from `Seq`,
//! `Seq<char>` and plain values; equality of IR values means equality of
//! their models.  Numbers are carried as the text they are written with in
//! the generated output.

use vstd::prelude::*;

use crate::text::owned;

verus! {

// ---------------------------------------------------------------------------
// Models
// ---------------------------------------------------------------------------

/// Model of [`Constraints`].
pub struct ConstraintsModel {
    pub minimum: Option<Seq<char>>,
    pub maximum: Option<Seq<char>>,
    pub exclusive_minimum: Option<Seq<char>>,
    pub exclusive_maximum: Option<Seq<char>>,
    pub multiple_of: Option<Seq<char>>,
    pub min_length: Option<usize>,
    pub max_length: Option<usize>,
    pub pattern: Option<Seq<char>>,
    pub format: Option<Seq<char>>,
    pub min_items: Option<usize>,
    pub max_items: Option<usize>,
    pub unique_items: Option<bool>,
    pub min_properties: Option<usize>,
    pub max_properties: Option<usize>,
}

/// Model of [`Type`].
pub enum TypeModel {
    Any,
    Never,
    Nil,
    Boolean,
    Number,
    String,
    StringLiteral(Seq<char>),
    NumberLiteral(Seq<char>),
    BooleanLiteral(bool),
    Array(Box<TypeModel>),
    Object(ObjectModel),
    Union(Seq<TypeModel>),
    EnumUnion(Seq<TypeModel>),
    Intersection(Seq<TypeModel>),
    Reference(Seq<char>),
    Dictionary(Box<TypeModel>),
    Tuple(Seq<TypeModel>),
}

/// Model of [`ObjectType`].
pub struct ObjectModel {
    pub properties: Seq<PropertyModel>,
    pub additional_properties: Option<AdditionalModel>,
}

/// Model of [`Property`].
pub struct PropertyModel {
    pub name: Seq<char>,
    pub ty: TypeModel,
    pub optional: bool,
    pub description: Option<Seq<char>>,
    pub constraints: ConstraintsModel,
    pub extra_constraints: ConstraintsModel,
}

/// Model of [`AdditionalProperties`].
pub enum AdditionalModel {
    Any,
    False,
    Schema(Box<TypeModel>),
}

/// Model of [`TypeDef`].
pub struct TypeDefModel {
    pub name: Seq<char>,
    pub description: Option<Seq<char>>,
    pub label: Option<Seq<char>>,
    pub constraints: ConstraintsModel,
    pub ty: TypeModel,
    pub exported: bool,
}

/// Model of [`TypeModule`].
pub struct TypeModuleModel {
    pub root_type: Option<TypeDefModel>,
    pub definitions: Seq<TypeDefModel>,
}

// ---------------------------------------------------------------------------
// Executable types
// ---------------------------------------------------------------------------

/// A complete type definition module containing all types.
#[derive(Debug)]
pub struct TypeModule {
    /// The root type definition.
    pub root_type: Option<TypeDef>,
    /// All named type definitions (from definitions/$defs).
    pub definitions: Vec<TypeDef>,
}

/// A named type definition.
#[derive(Debug)]
pub struct TypeDef {
    /// The name of the type (PascalCase).
    pub name: String,
    /// Optional description for the type.
    pub description: Option<String>,
    /// Optional auto-generated label/comment (e.g. for pure composition types).
    pub label: Option<String>,
    /// Constraints of the schema the type was made of, written as comments.
    pub constraints: Constraints,
    /// The actual type.
    pub ty: Type,
    /// Whether this type should be exported.
    pub exported: bool,
}

/// Represents a type in the IR.
#[derive(Debug, PartialEq)]
pub enum Type {
    /// Any type (accepts anything).
    Any,
    /// Never type (accepts nothing).
    Never,
    /// Nil/null type.
    Nil,
    /// Boolean type.
    Boolean,
    /// Number type (includes integers).
    Number,
    /// String type.
    String,
    /// Literal string value.
    StringLiteral(String),
    /// Literal number value, held as the text it is written with.
    NumberLiteral(String),
    /// Literal boolean value.
    BooleanLiteral(bool),
    /// Array type with element type.
    Array(Box<Type>),
    /// Object type with properties.
    Object(Box<ObjectType>),
    /// Union of types (anyOf, oneOf, multi-type).
    Union(Vec<Type>),
    /// Union derived from a JSON Schema `enum` of string literals.
    /// Rendered without parentheses.
    EnumUnion(Vec<Type>),
    /// Intersection of types (allOf).
    Intersection(Vec<Type>),
    /// Reference to another type by name.
    Reference(String),
    /// Map/dictionary type with value type.
    Dictionary(Box<Type>),
    /// Tuple-like array with specific item types.
    Tuple(Vec<Type>),
}

/// Represents an object type with properties.
#[derive(Debug, PartialEq)]
pub struct ObjectType {
    /// The object's properties.
    pub properties: Vec<Property>,
    /// Whether additional properties are allowed.
    pub additional_properties: Option<AdditionalProperties>,
}

/// A property of an object type.
#[derive(Debug, PartialEq)]
pub struct Property {
    /// The property name.
    pub name: String,
    /// The property type.
    pub ty: Type,
    /// Whether the property is optional.
    pub optional: bool,
    /// Optional description for the property.
    pub description: Option<String>,
    /// Constraints for the property.
    pub constraints: Constraints,
    /// Constraints hoisted from an `additionalProperties` sub-schema.
    pub extra_constraints: Constraints,
}

/// Additional properties configuration for an object.
#[derive(Debug, PartialEq)]
pub enum AdditionalProperties {
    /// Additional properties are allowed with any type.
    Any,
    /// Additional properties are not allowed.
    False,
    /// Additional properties must match the specified schema.
    Schema(Box<Type>),
}

/// Constraints that can be applied to types.
///
/// Numeric bounds are held as the decimal text they are written with.
#[derive(Debug, Clone, PartialEq)]
pub struct Constraints {
    /// Minimum value for numbers.
    pub minimum: Option<String>,
    /// Maximum value for numbers.
    pub maximum: Option<String>,
    /// Exclusive minimum for numbers.
    pub exclusive_minimum: Option<String>,
    /// Exclusive maximum for numbers.
    pub exclusive_maximum: Option<String>,
    /// Multiple of constraint for numbers.
    pub multiple_of: Option<String>,
    /// Minimum length for strings.
    pub min_length: Option<usize>,
    /// Maximum length for strings.
    pub max_length: Option<usize>,
    /// Pattern for strings.
    pub pattern: Option<String>,
    /// Format for strings.
    pub format: Option<String>,
    /// Minimum items for arrays.
    pub min_items: Option<usize>,
    /// Maximum items for arrays.
    pub max_items: Option<usize>,
    /// Unique items for arrays.
    pub unique_items: Option<bool>,
    /// Minimum properties for objects.
    pub min_properties: Option<usize>,
    /// Maximum properties for objects.
    pub max_properties: Option<usize>,
}

// ---------------------------------------------------------------------------
// Views
// ---------------------------------------------------------------------------

/// The model of an optional text.
pub open spec fn opt_text(o: Option<String>) -> Option<Seq<char>> {
    match o {
        Some(s) => Some(s@),
        None => None,
    }
}

impl View for Constraints {
    type V = ConstraintsModel;

    open spec fn view(&self) -> ConstraintsModel {
        ConstraintsModel {
            minimum: opt_text(self.minimum),
            maximum: opt_text(self.maximum),
            exclusive_minimum: opt_text(self.exclusive_minimum),
            exclusive_maximum: opt_text(self.exclusive_maximum),
            multiple_of: opt_text(self.multiple_of),
            min_length: self.min_length,
            max_length: self.max_length,
            pattern: opt_text(self.pattern),
            format: opt_text(self.format),
            min_items: self.min_items,
            max_items: self.max_items,
            unique_items: self.unique_items,
            min_properties: self.min_properties,
            max_properties: self.max_properties,
        }
    }
}

/// The model of a type.
pub open spec fn type_model(t: Type) -> TypeModel
    decreases t,
{
    match t {
        Type::Any => TypeModel::Any,
        Type::Never => TypeModel::Never,
        Type::Nil => TypeModel::Nil,
        Type::Boolean => TypeModel::Boolean,
        Type::Number => TypeModel::Number,
        Type::String => TypeModel::String,
        Type::StringLiteral(s) => TypeModel::StringLiteral(s@),
        Type::NumberLiteral(s) => TypeModel::NumberLiteral(s@),
        Type::BooleanLiteral(b) => TypeModel::BooleanLiteral(b),
        Type::Array(e) => TypeModel::Array(Box::new(type_model(*e))),
        Type::Object(o) => TypeModel::Object(object_model(*o)),
        Type::Union(v) => {
            proof {
                broadcast use vstd::std_specs::vec::axiom_vec_decreases_to_view;

            }
            TypeModel::Union(types_model(v@))
        },
        Type::EnumUnion(v) => {
            proof {
                broadcast use vstd::std_specs::vec::axiom_vec_decreases_to_view;

            }
            TypeModel::EnumUnion(types_model(v@))
        },
        Type::Intersection(v) => {
            proof {
                broadcast use vstd::std_specs::vec::axiom_vec_decreases_to_view;

            }
            TypeModel::Intersection(types_model(v@))
        },
        Type::Reference(s) => TypeModel::Reference(s@),
        Type::Dictionary(e) => TypeModel::Dictionary(Box::new(type_model(*e))),
        Type::Tuple(v) => {
            proof {
                broadcast use vstd::std_specs::vec::axiom_vec_decreases_to_view;

            }
            TypeModel::Tuple(types_model(v@))
        },
    }
}

/// The models of a sequence of types.
pub open spec fn types_model(s: Seq<Type>) -> Seq<TypeModel>
    decreases s,
{
    if s.len() == 0 {
        Seq::empty()
    } else {
        types_model(s.drop_last()).push(type_model(s.last()))
    }
}

/// The model of an object type.
pub open spec fn object_model(o: ObjectType) -> ObjectModel
    decreases o,
{
    ObjectModel {
        properties: {
            proof {
                broadcast use vstd::std_specs::vec::axiom_vec_decreases_to_view;

            }
            properties_model(o.properties@)
        },
        additional_properties: match o.additional_properties {
            Some(a) => Some(additional_model(a)),
            None => None,
        },
    }
}

/// The models of a sequence of properties.
pub open spec fn properties_model(s: Seq<Property>) -> Seq<PropertyModel>
    decreases s,
{
    if s.len() == 0 {
        Seq::empty()
    } else {
        properties_model(s.drop_last()).push(property_model(s.last()))
    }
}

/// The model of a property.
pub open spec fn property_model(p: Property) -> PropertyModel
    decreases p,
{
    PropertyModel {
        name: p.name@,
        ty: type_model(p.ty),
        optional: p.optional,
        description: opt_text(p.description),
        constraints: p.constraints@,
        extra_constraints: p.extra_constraints@,
    }
}

/// The model of an additional-properties setting.
pub open spec fn additional_model(a: AdditionalProperties) -> AdditionalModel
    decreases a,
{
    match a {
        AdditionalProperties::Any => AdditionalModel::Any,
        AdditionalProperties::False => AdditionalModel::False,
        AdditionalProperties::Schema(t) => AdditionalModel::Schema(Box::new(type_model(*t))),
    }
}

impl View for Type {
    type V = TypeModel;

    open spec fn view(&self) -> TypeModel {
        type_model(*self)
    }
}

impl View for ObjectType {
    type V = ObjectModel;

    open spec fn view(&self) -> ObjectModel {
        object_model(*self)
    }
}

impl View for Property {
    type V = PropertyModel;

    open spec fn view(&self) -> PropertyModel {
        property_model(*self)
    }
}

impl View for AdditionalProperties {
    type V = AdditionalModel;

    open spec fn view(&self) -> AdditionalModel {
        additional_model(*self)
    }
}

impl View for TypeDef {
    type V = TypeDefModel;

    open spec fn view(&self) -> TypeDefModel {
        TypeDefModel {
            name: self.name@,
            description: opt_text(self.description),
            label: opt_text(self.label),
            constraints: self.constraints@,
            ty: self.ty@,
            exported: self.exported,
        }
    }
}

/// The models of a sequence of type definitions.
pub open spec fn defs_model(s: Seq<TypeDef>) -> Seq<TypeDefModel> {
    s.map_values(|d: TypeDef| d@)
}

impl View for TypeModule {
    type V = TypeModuleModel;

    open spec fn view(&self) -> TypeModuleModel {
        TypeModuleModel {
            root_type: match self.root_type {
                Some(d) => Some(d@),
                None => None,
            },
            definitions: defs_model(self.definitions@),
        }
    }
}

/// `types_model` keeps length and position.
pub proof fn lemma_types_model(s: Seq<Type>)
    ensures
        types_model(s).len() == s.len(),
        forall|i: int| 0 <= i < s.len() ==> #[trigger] types_model(s)[i] == s[i]@,
    decreases s.len(),
{
    if s.len() > 0 {
        lemma_types_model(s.drop_last());
    }
}

/// `properties_model` keeps length and position.
pub proof fn lemma_properties_model(s: Seq<Property>)
    ensures
        properties_model(s).len() == s.len(),
        forall|i: int| 0 <= i < s.len() ==> #[trigger] properties_model(s)[i] == s[i]@,
    decreases s.len(),
{
    if s.len() > 0 {
        lemma_properties_model(s.drop_last());
    }
}

/// Sequences of types with elementwise equal models have equal models.
pub proof fn lemma_types_model_ext(a: Seq<Type>, b: Seq<Type>)
    requires
        a.len() == b.len(),
        forall|i: int| 0 <= i < a.len() ==> a[i]@ == b[i]@,
    ensures
        types_model(a) == types_model(b),
{
    lemma_types_model(a);
    lemma_types_model(b);
    assert(types_model(a) =~= types_model(b));
}

// ---------------------------------------------------------------------------
// Union and intersection semantics
// ---------------------------------------------------------------------------

/// The members a type contributes to a union: the members of a nested
/// union (of either kind), or the type itself.
pub open spec fn union_members(t: TypeModel) -> Seq<TypeModel> {
    match t {
        TypeModel::Union(inner) => inner,
        TypeModel::EnumUnion(inner) => inner,
        _ => seq![t],
    }
}

/// The members of all given types, with nested unions opened one level.
pub open spec fn flatten_union(ts: Seq<TypeModel>) -> Seq<TypeModel>
    decreases ts.len(),
{
    if ts.len() == 0 {
        Seq::empty()
    } else {
        flatten_union(ts.drop_last()) + union_members(ts.last())
    }
}

/// The members an intersection contributes to an intersection.
pub open spec fn intersection_members(t: TypeModel) -> Seq<TypeModel> {
    match t {
        TypeModel::Intersection(inner) => inner,
        _ => seq![t],
    }
}

/// The members of all given types, with nested intersections opened one level.
pub open spec fn flatten_intersection(ts: Seq<TypeModel>) -> Seq<TypeModel>
    decreases ts.len(),
{
    if ts.len() == 0 {
        Seq::empty()
    } else {
        flatten_intersection(ts.drop_last()) + intersection_members(ts.last())
    }
}

/// `s` without repeated elements, keeping the first occurrence of each.
pub open spec fn dedup(s: Seq<TypeModel>) -> Seq<TypeModel>
    decreases s.len(),
{
    if s.len() == 0 {
        Seq::empty()
    } else {
        let d = dedup(s.drop_last());
        if d.contains(s.last()) {
            d
        } else {
            d.push(s.last())
        }
    }
}

/// The type that `Type::union` builds from the given members.
pub open spec fn union_of(ts: Seq<TypeModel>) -> TypeModel {
    let d = dedup(flatten_union(ts));
    if d.len() == 0 {
        TypeModel::Never
    } else if d.len() == 1 {
        d[0]
    } else {
        TypeModel::Union(d)
    }
}

/// The type that `Type::enum_union` builds from the given members.
pub open spec fn enum_union_of(ts: Seq<TypeModel>) -> TypeModel {
    if ts.len() == 0 {
        TypeModel::Never
    } else if ts.len() == 1 {
        ts[0]
    } else {
        TypeModel::EnumUnion(ts)
    }
}

/// The type that `Type::intersection` builds from the given members.
pub open spec fn intersection_of(ts: Seq<TypeModel>) -> TypeModel {
    let f = flatten_intersection(ts);
    if f.len() == 0 {
        TypeModel::Any
    } else if f.len() == 1 {
        f[0]
    } else {
        TypeModel::Intersection(f)
    }
}

/// Whether a type is a simple primitive.
pub open spec fn is_primitive_model(t: TypeModel) -> bool {
    match t {
        TypeModel::Any | TypeModel::Never | TypeModel::Nil | TypeModel::Boolean
        | TypeModel::Number | TypeModel::String | TypeModel::StringLiteral(_)
        | TypeModel::NumberLiteral(_) | TypeModel::BooleanLiteral(_) => true,
        _ => false,
    }
}

/// Whether a type is parenthesized when it stands inside a union or an intersection.
pub open spec fn needs_parens_model(t: TypeModel) -> bool {
    match t {
        TypeModel::Union(_) | TypeModel::Intersection(_) => true,
        _ => false,
    }
}

/// The model of empty constraints.
pub open spec fn no_constraints() -> ConstraintsModel {
    ConstraintsModel {
        minimum: None,
        maximum: None,
        exclusive_minimum: None,
        exclusive_maximum: None,
        multiple_of: None,
        min_length: None,
        max_length: None,
        pattern: None,
        format: None,
        min_items: None,
        max_items: None,
        unique_items: None,
        min_properties: None,
        max_properties: None,
    }
}

// ---------------------------------------------------------------------------
// Laws of union and intersection
// ---------------------------------------------------------------------------

/// `dedup` never keeps two equal elements.
pub proof fn lemma_dedup_no_duplicates(s: Seq<TypeModel>)
    ensures
        dedup(s).no_duplicates(),
    decreases s.len(),
{
    if s.len() > 0 {
        lemma_dedup_no_duplicates(s.drop_last());
        let d = dedup(s.drop_last());
        if !d.contains(s.last()) {
            assert forall|i: int, j: int|
                0 <= i < d.push(s.last()).len() && 0 <= j < d.push(s.last()).len() && i != j
                implies d.push(s.last())[i] != d.push(s.last())[j] by {
                if i == d.len() {
                    assert(d[j] == d.push(s.last())[j]);
                } else if j == d.len() {
                    assert(d[i] == d.push(s.last())[i]);
                }
            }
        }
    }
}

/// `dedup` keeps exactly the elements it is given.
pub proof fn lemma_dedup_same_elements(s: Seq<TypeModel>)
    ensures
        forall|x: TypeModel| #[trigger] dedup(s).contains(x) <==> s.contains(x),
    decreases s.len(),
{
    if s.len() > 0 {
        lemma_dedup_same_elements(s.drop_last());
        let d = dedup(s.drop_last());
        assert forall|x: TypeModel| #[trigger] dedup(s).contains(x) <==> s.contains(x) by {
            if s.contains(x) {
                let k = choose|k: int| 0 <= k < s.len() && s[k] == x;
                if k < s.len() - 1 {
                    assert(s.drop_last()[k] == x);
                }
            }
            if s.drop_last().contains(x) {
                let k = choose|k: int| 0 <= k < s.drop_last().len() && s.drop_last()[k] == x;
                assert(s[k] == x);
            }
            if !d.contains(s.last()) && d.push(s.last()).contains(x) {
                let k = choose|k: int| 0 <= k < d.push(s.last()).len() && d.push(s.last())[k] == x;
                if k < d.len() {
                    assert(d[k] == x);
                }
            }
            if d.contains(x) && !d.contains(s.last()) {
                let k = choose|k: int| 0 <= k < d.len() && d[k] == x;
                assert(d.push(s.last())[k] == x);
            }
            if x == s.last() && !d.contains(s.last()) {
                assert(d.push(s.last())[d.len() as int] == x);
            }
        }
    }
}

/// Law: the members of a union are pairwise distinct, and they are exactly the
/// given members with nested unions opened one level (when there are at least
/// two of them); with no members at all the union is `never`.
pub proof fn law_union_members(ts: Seq<TypeModel>)
    ensures
        dedup(flatten_union(ts)).len() >= 2 ==> ({
            let d = dedup(flatten_union(ts));
            &&& union_of(ts) == TypeModel::Union(d)
            &&& d.no_duplicates()
            &&& forall|x: TypeModel| #[trigger] d.contains(x) <==> flatten_union(ts).contains(x)
        }),
        flatten_union(ts).len() == 0 ==> union_of(ts) == TypeModel::Never,
{
    lemma_dedup_no_duplicates(flatten_union(ts));
    lemma_dedup_same_elements(flatten_union(ts));
    if flatten_union(ts).len() == 0 {
        assert(dedup(flatten_union(ts)) =~= Seq::<TypeModel>::empty());
    }
}

/// The union members of a single type.
pub proof fn lemma_flatten_union_single(t: TypeModel)
    ensures
        flatten_union(seq![t]) == union_members(t),
{
    assert(seq![t].drop_last() =~= Seq::<TypeModel>::empty());
    assert(flatten_union(Seq::<TypeModel>::empty()) == Seq::<TypeModel>::empty());
    assert(flatten_union(seq![t]) =~= union_members(t));
}

/// `dedup` of a single element.
pub proof fn lemma_dedup_single(t: TypeModel)
    ensures
        dedup(seq![t]) == seq![t],
{
    assert(seq![t].drop_last() =~= Seq::<TypeModel>::empty());
    assert(dedup(Seq::<TypeModel>::empty()) == Seq::<TypeModel>::empty());
    assert(dedup(seq![t]) =~= seq![t]);
}

/// `dedup` leaves a sequence without repetitions unchanged.
pub proof fn lemma_dedup_of_distinct(s: Seq<TypeModel>)
    requires
        s.no_duplicates(),
    ensures
        dedup(s) == s,
    decreases s.len(),
{
    if s.len() > 0 {
        let p = s.drop_last();
        assert(p.no_duplicates());
        lemma_dedup_of_distinct(p);
        lemma_dedup_same_elements(p);
        if p.contains(s.last()) {
            let k = choose|k: int| 0 <= k < p.len() && p[k] == s.last();
            assert(s[k] == s[s.len() - 1]);
        }
        assert(p.push(s.last()) == s);
    }
}

/// Whether no member is itself a union.
pub open spec fn no_nested_union(s: Seq<TypeModel>) -> bool {
    forall|i: int|
        0 <= i < s.len() ==> !(#[trigger] s[i] is Union) && !(s[i] is EnumUnion)
}

/// Law: building a union from a union gives the same union, as long as the
/// members being united are not unions themselves.
pub proof fn law_union_idempotent(ts: Seq<TypeModel>)
    requires
        no_nested_union(flatten_union(ts)),
    ensures
        union_of(seq![union_of(ts)]) == union_of(ts),
{
    let f = flatten_union(ts);
    let d = dedup(f);
    lemma_dedup_no_duplicates(f);
    lemma_dedup_same_elements(f);
    let u = union_of(ts);
    lemma_flatten_union_single(u);
    if d.len() == 0 {
        lemma_dedup_single(TypeModel::Never);
    } else if d.len() == 1 {
        assert(d.contains(d[0]));
        assert(f.contains(d[0]));
        let k = choose|k: int| 0 <= k < f.len() && f[k] == d[0];
        assert(!(f[k] is Union) && !(f[k] is EnumUnion));
        lemma_dedup_single(d[0]);
    } else {
        lemma_dedup_of_distinct(d);
    }
}

/// Law: a union of one member that is not itself a union is that member.
pub proof fn law_union_single(t: TypeModel)
    requires
        !(t is Union),
        !(t is EnumUnion),
    ensures
        union_of(seq![t]) == t,
{
    lemma_flatten_union_single(t);
    lemma_dedup_single(t);
}

// ---------------------------------------------------------------------------
// Model lemmas used by the executable code
// ---------------------------------------------------------------------------

/// The model of a sequence with one more type.
pub proof fn lemma_types_model_push(s: Seq<Type>, t: Type)
    ensures
        types_model(s.push(t)) == types_model(s).push(t@),
{
    assert(s.push(t).drop_last() == s);
}

/// The model of two sequences of types put together.
pub proof fn lemma_types_model_concat(a: Seq<Type>, b: Seq<Type>)
    ensures
        types_model(a + b) == types_model(a) + types_model(b),
    decreases b.len(),
{
    if b.len() == 0 {
        assert(a + b == a);
        assert(types_model(a) + types_model(b) == types_model(a));
    } else {
        lemma_types_model_concat(a, b.drop_last());
        assert((a + b).drop_last() == a + b.drop_last());
        assert((a + b).last() == b.last());
        assert(types_model(a) + types_model(b) == (types_model(a) + types_model(
            b.drop_last(),
        )).push(b.last()@));
    }
}

/// The model of a sequence with one more property.
pub proof fn lemma_properties_model_push(s: Seq<Property>, p: Property)
    ensures
        properties_model(s.push(p)) == properties_model(s).push(p@),
{
    assert(s.push(p).drop_last() == s);
}

/// Flattening one more member.
pub proof fn lemma_flatten_union_push(ts: Seq<TypeModel>, t: TypeModel)
    ensures
        flatten_union(ts.push(t)) == flatten_union(ts) + union_members(t),
{
    assert(ts.push(t).drop_last() == ts);
}

/// Flattening one more member.
pub proof fn lemma_flatten_intersection_push(ts: Seq<TypeModel>, t: TypeModel)
    ensures
        flatten_intersection(ts.push(t)) == flatten_intersection(ts) + intersection_members(t),
{
    assert(ts.push(t).drop_last() == ts);
}

/// Deduplicating one more element.
pub proof fn lemma_dedup_push(s: Seq<TypeModel>, t: TypeModel)
    ensures
        dedup(s.push(t)) == (if dedup(s).contains(t) {
            dedup(s)
        } else {
            dedup(s).push(t)
        }),
{
    assert(s.push(t).drop_last() == s);
}

// ---------------------------------------------------------------------------
// Equality
// ---------------------------------------------------------------------------

/// Whether two optional texts are equal.
pub fn same_text_opt(a: &Option<String>, b: &Option<String>) -> (r: bool)
    ensures
        r == (opt_text(*a) == opt_text(*b)),
{
    match (a, b) {
        (Some(x), Some(y)) => *x == *y,
        (None, None) => true,
        _ => false,
    }
}

fn same_usize_opt(a: Option<usize>, b: Option<usize>) -> (r: bool)
    ensures
        r == (a == b),
{
    match (a, b) {
        (Some(x), Some(y)) => x == y,
        (None, None) => true,
        _ => false,
    }
}

fn same_types(a: &Vec<Type>, b: &Vec<Type>) -> (r: bool)
    ensures
        r == (types_model(a@) == types_model(b@)),
    decreases a,
{
    proof {
        lemma_types_model(a@);
        lemma_types_model(b@);
    }
    if a.len() != b.len() {
        return false;
    }
    let mut i: usize = 0;
    while i < a.len()
        invariant
            i <= a@.len() == b@.len(),
            types_model(a@).len() == a@.len(),
            types_model(b@).len() == b@.len(),
            forall|k: int| 0 <= k < a@.len() ==> #[trigger] types_model(a@)[k] == a@[k]@,
            forall|k: int| 0 <= k < b@.len() ==> #[trigger] types_model(b@)[k] == b@[k]@,
            forall|k: int| 0 <= k < i ==> a@[k]@ == b@[k]@,
        decreases a@.len() - i,
    {
        if !a[i].same(&b[i]) {
            assert(types_model(a@)[i as int] != types_model(b@)[i as int]);
            return false;
        }
        i += 1;
    }
    proof {
        lemma_types_model_ext(a@, b@);
    }
    true
}

fn same_properties(a: &Vec<Property>, b: &Vec<Property>) -> (r: bool)
    ensures
        r == (properties_model(a@) == properties_model(b@)),
    decreases a,
{
    proof {
        lemma_properties_model(a@);
        lemma_properties_model(b@);
    }
    if a.len() != b.len() {
        return false;
    }
    let mut i: usize = 0;
    while i < a.len()
        invariant
            i <= a@.len() == b@.len(),
            properties_model(a@).len() == a@.len(),
            properties_model(b@).len() == b@.len(),
            forall|k: int| 0 <= k < a@.len() ==> #[trigger] properties_model(a@)[k] == a@[k]@,
            forall|k: int| 0 <= k < b@.len() ==> #[trigger] properties_model(b@)[k] == b@[k]@,
            forall|k: int| 0 <= k < i ==> a@[k]@ == b@[k]@,
        decreases a@.len() - i,
    {
        if !a[i].same(&b[i]) {
            assert(properties_model(a@)[i as int] != properties_model(b@)[i as int]);
            return false;
        }
        i += 1;
    }
    assert(properties_model(a@) =~= properties_model(b@));
    true
}

impl Constraints {
    /// Whether two constraint sets are equal.
    pub fn same(&self, other: &Constraints) -> (r: bool)
        ensures
            r == (self@ == other@),
    {
        same_text_opt(&self.minimum, &other.minimum) && same_text_opt(
            &self.maximum,
            &other.maximum,
        ) && same_text_opt(&self.exclusive_minimum, &other.exclusive_minimum)
            && same_text_opt(&self.exclusive_maximum, &other.exclusive_maximum)
            && same_text_opt(&self.multiple_of, &other.multiple_of) && same_usize_opt(
            self.min_length,
            other.min_length,
        ) && same_usize_opt(self.max_length, other.max_length) && same_text_opt(
            &self.pattern,
            &other.pattern,
        ) && same_text_opt(&self.format, &other.format) && same_usize_opt(
            self.min_items,
            other.min_items,
        ) && same_usize_opt(self.max_items, other.max_items) && match (
            self.unique_items,
            other.unique_items,
        ) {
            (Some(x), Some(y)) => x == y,
            (None, None) => true,
            _ => false,
        } && same_usize_opt(self.min_properties, other.min_properties) && same_usize_opt(
            self.max_properties,
            other.max_properties,
        )
    }
}

impl Property {
    /// Whether two properties are equal.
    pub fn same(&self, other: &Property) -> (r: bool)
        ensures
            r == (self@ == other@),
        decreases self,
    {
        self.name == other.name && self.ty.same(&other.ty) && self.optional == other.optional
            && same_text_opt(&self.description, &other.description) && self.constraints.same(
            &other.constraints,
        ) && self.extra_constraints.same(&other.extra_constraints)
    }
}

impl AdditionalProperties {
    /// Whether two additional-properties settings are equal.
    pub fn same(&self, other: &AdditionalProperties) -> (r: bool)
        ensures
            r == (self@ == other@),
        decreases self,
    {
        match (self, other) {
            (AdditionalProperties::Any, AdditionalProperties::Any) => true,
            (AdditionalProperties::False, AdditionalProperties::False) => true,
            (AdditionalProperties::Schema(a), AdditionalProperties::Schema(b)) => a.same(b),
            _ => false,
        }
    }
}

impl ObjectType {
    /// Whether two object types are equal.
    pub fn same(&self, other: &ObjectType) -> (r: bool)
        ensures
            r == (self@ == other@),
        decreases self,
    {
        let props = same_properties(&self.properties, &other.properties);
        let extra = match (&self.additional_properties, &other.additional_properties) {
            (Some(a), Some(b)) => a.same(b),
            (None, None) => true,
            _ => false,
        };
        props && extra
    }
}

impl Type {
    /// Whether two types are equal.
    pub fn same(&self, other: &Type) -> (r: bool)
        ensures
            r == (self@ == other@),
        decreases self,
    {
        match (self, other) {
            (Type::Any, Type::Any) => true,
            (Type::Never, Type::Never) => true,
            (Type::Nil, Type::Nil) => true,
            (Type::Boolean, Type::Boolean) => true,
            (Type::Number, Type::Number) => true,
            (Type::String, Type::String) => true,
            (Type::StringLiteral(a), Type::StringLiteral(b)) => *a == *b,
            (Type::NumberLiteral(a), Type::NumberLiteral(b)) => *a == *b,
            (Type::BooleanLiteral(a), Type::BooleanLiteral(b)) => *a == *b,
            (Type::Array(a), Type::Array(b)) => a.same(b),
            (Type::Object(a), Type::Object(b)) => a.same(b),
            (Type::Union(a), Type::Union(b)) => same_types(a, b),
            (Type::EnumUnion(a), Type::EnumUnion(b)) => same_types(a, b),
            (Type::Intersection(a), Type::Intersection(b)) => same_types(a, b),
            (Type::Reference(a), Type::Reference(b)) => *a == *b,
            (Type::Dictionary(a), Type::Dictionary(b)) => a.same(b),
            (Type::Tuple(a), Type::Tuple(b)) => same_types(a, b),
            _ => false,
        }
    }
}

/// Whether some element of `v` equals `t`.
fn contains_type(v: &Vec<Type>, t: &Type) -> (r: bool)
    ensures
        r == types_model(v@).contains(t@),
{
    proof {
        lemma_types_model(v@);
    }
    let mut i: usize = 0;
    while i < v.len()
        invariant
            i <= v@.len(),
            types_model(v@).len() == v@.len(),
            forall|k: int| 0 <= k < v@.len() ==> #[trigger] types_model(v@)[k] == v@[k]@,
            forall|k: int| 0 <= k < i ==> v@[k]@ != t@,
        decreases v@.len() - i,
    {
        if v[i].same(t) {
            assert(types_model(v@)[i as int] == t@);
            return true;
        }
        i += 1;
    }
    assert(!types_model(v@).contains(t@)) by {
        if types_model(v@).contains(t@) {
            let k = choose|k: int| 0 <= k < types_model(v@).len() && types_model(v@)[k] == t@;
            assert(v@[k]@ == t@);
        }
    }
    false
}

// ---------------------------------------------------------------------------
// Constructors and queries
// ---------------------------------------------------------------------------

// ---------------------------------------------------------------------------
// Copies
// ---------------------------------------------------------------------------

fn copy_text_opt(o: &Option<String>) -> (r: Option<String>)
    ensures
        opt_text(r) == opt_text(*o),
{
    match o {
        Some(s) => Some(s.clone()),
        None => None,
    }
}

fn copy_constraints(c: &Constraints) -> (r: Constraints)
    ensures
        r@ == c@,
{
    Constraints {
        minimum: copy_text_opt(&c.minimum),
        maximum: copy_text_opt(&c.maximum),
        exclusive_minimum: copy_text_opt(&c.exclusive_minimum),
        exclusive_maximum: copy_text_opt(&c.exclusive_maximum),
        multiple_of: copy_text_opt(&c.multiple_of),
        min_length: c.min_length,
        max_length: c.max_length,
        pattern: copy_text_opt(&c.pattern),
        format: copy_text_opt(&c.format),
        min_items: c.min_items,
        max_items: c.max_items,
        unique_items: c.unique_items,
        min_properties: c.min_properties,
        max_properties: c.max_properties,
    }
}

fn copy_type(t: &Type) -> (r: Type)
    ensures
        r@ == t@,
    decreases t, 2nat,
{
    match t {
        Type::Any => Type::Any,
        Type::Never => Type::Never,
        Type::Nil => Type::Nil,
        Type::Boolean => Type::Boolean,
        Type::Number => Type::Number,
        Type::String => Type::String,
        Type::StringLiteral(s) => Type::StringLiteral(s.clone()),
        Type::NumberLiteral(n) => Type::NumberLiteral(n.clone()),
        Type::BooleanLiteral(b) => Type::BooleanLiteral(*b),
        Type::Array(e) => Type::Array(Box::new(copy_type(e))),
        Type::Object(o) => Type::Object(Box::new(copy_object(o))),
        Type::Union(v) => Type::Union(copy_types(v)),
        Type::EnumUnion(v) => Type::EnumUnion(copy_types(v)),
        Type::Intersection(v) => Type::Intersection(copy_types(v)),
        Type::Reference(n) => Type::Reference(n.clone()),
        Type::Dictionary(e) => Type::Dictionary(Box::new(copy_type(e))),
        Type::Tuple(v) => Type::Tuple(copy_types(v)),
    }
}

fn copy_types(v: &Vec<Type>) -> (r: Vec<Type>)
    ensures
        types_model(r@) == types_model(v@),
    decreases v, 1nat,
{
    proof {
        lemma_types_model(v@);
    }
    let mut out: Vec<Type> = Vec::new();
    let mut i: usize = 0;
    while i < v.len()
        invariant
            i <= v@.len(),
            out@.len() == i,
            forall|j: int| 0 <= j < i ==> #[trigger] out@[j]@ == v@[j]@,
        decreases v@.len() - i,
    {
        out.push(copy_type(&v[i]));
        i += 1;
    }
    proof {
        lemma_types_model(out@);
        assert(types_model(out@) =~= types_model(v@));
    }
    out
}

fn copy_object(o: &ObjectType) -> (r: ObjectType)
    ensures
        r@ == o@,
    decreases o, 1nat,
{
    let additional_properties = match &o.additional_properties {
        Some(a) => Some(copy_additional(a)),
        None => None,
    };
    ObjectType { properties: copy_properties(&o.properties), additional_properties }
}

fn copy_properties(v: &Vec<Property>) -> (r: Vec<Property>)
    ensures
        properties_model(r@) == properties_model(v@),
    decreases v, 0nat,
{
    proof {
        lemma_properties_model(v@);
    }
    let mut out: Vec<Property> = Vec::new();
    let mut i: usize = 0;
    while i < v.len()
        invariant
            i <= v@.len(),
            out@.len() == i,
            forall|j: int| 0 <= j < i ==> #[trigger] out@[j]@ == v@[j]@,
        decreases v@.len() - i,
    {
        out.push(copy_property(&v[i]));
        i += 1;
    }
    proof {
        lemma_properties_model(out@);
        assert(properties_model(out@) =~= properties_model(v@));
    }
    out
}

fn copy_property(p: &Property) -> (r: Property)
    ensures
        r@ == p@,
    decreases p, 3nat,
{
    Property {
        name: p.name.clone(),
        ty: copy_type(&p.ty),
        optional: p.optional,
        description: copy_text_opt(&p.description),
        constraints: copy_constraints(&p.constraints),
        extra_constraints: copy_constraints(&p.extra_constraints),
    }
}

fn copy_additional(a: &AdditionalProperties) -> (r: AdditionalProperties)
    ensures
        r@ == a@,
    decreases a, 3nat,
{
    match a {
        AdditionalProperties::Any => AdditionalProperties::Any,
        AdditionalProperties::False => AdditionalProperties::False,
        AdditionalProperties::Schema(t) => AdditionalProperties::Schema(Box::new(copy_type(t))),
    }
}

impl Clone for Type {
    /// A copy with the same model.
    fn clone(&self) -> (r: Self)
        ensures
            r@ == self@,
    {
        copy_type(self)
    }
}

impl Clone for ObjectType {
    /// A copy with the same model.
    fn clone(&self) -> (r: Self)
        ensures
            r@ == self@,
    {
        copy_object(self)
    }
}

impl Clone for Property {
    /// A copy with the same model.
    fn clone(&self) -> (r: Self)
        ensures
            r@ == self@,
    {
        copy_property(self)
    }
}

impl Clone for AdditionalProperties {
    /// A copy with the same model.
    fn clone(&self) -> (r: Self)
        ensures
            r@ == self@,
    {
        copy_additional(self)
    }
}

impl Clone for TypeDef {
    /// A copy with the same model.
    fn clone(&self) -> (r: Self)
        ensures
            r@ == self@,
    {
        TypeDef {
            name: self.name.clone(),
            description: copy_text_opt(&self.description),
            label: copy_text_opt(&self.label),
            constraints: copy_constraints(&self.constraints),
            ty: copy_type(&self.ty),
            exported: self.exported,
        }
    }
}

impl Clone for TypeModule {
    /// A copy with the same model.
    fn clone(&self) -> (r: Self)
        ensures
            r@ == self@,
    {
        let root_type = match &self.root_type {
            Some(d) => Some(d.clone()),
            None => None,
        };
        let mut definitions: Vec<TypeDef> = Vec::new();
        let mut i: usize = 0;
        while i < self.definitions.len()
            invariant
                i <= self.definitions@.len(),
                definitions@.len() == i,
                forall|j: int| 0 <= j < i ==> #[trigger] definitions@[j]@ == self.definitions@[j]@,
            decreases self.definitions@.len() - i,
        {
            definitions.push(self.definitions[i].clone());
            i += 1;
        }
        assert(defs_model(definitions@) =~= defs_model(self.definitions@));
        TypeModule { root_type, definitions }
    }
}

impl TypeModule {
    /// Create a new empty type module.
    pub fn new() -> (r: Self)
        ensures
            r@.root_type is None,
            r@.definitions.len() == 0,
    {
        TypeModule { root_type: None, definitions: Vec::new() }
    }
}

impl Default for TypeModule {
    fn default() -> (r: Self)
        ensures
            r@.root_type is None,
            r@.definitions.len() == 0,
    {
        TypeModule::new()
    }
}

impl TypeDef {
    /// Create a new type definition, exported, without description or label.
    pub fn new(name: &str, ty: Type) -> (r: Self)
        ensures
            r@ == (TypeDefModel {
                name: name@,
                description: None,
                label: None,
                constraints: no_constraints(),
                ty: ty@,
                exported: true,
            }),
    {
        TypeDef {
            name: owned(name),
            description: None,
            label: None,
            constraints: Constraints::new(),
            ty,
            exported: true,
        }
    }

    /// Add a description to the type definition.
    pub fn with_description(self, desc: &str) -> (r: Self)
        ensures
            r@ == (TypeDefModel { description: Some(desc@), ..self@ }),
    {
        let mut s = self;
        s.description = Some(owned(desc));
        s
    }

    /// Add a label comment to the type definition.
    pub fn with_label(self, label: &str) -> (r: Self)
        ensures
            r@ == (TypeDefModel { label: Some(label@), ..self@ }),
    {
        let mut s = self;
        s.label = Some(owned(label));
        s
    }

    /// Set the constraints written as comments before the type.
    pub fn with_constraints(self, constraints: Constraints) -> (r: Self)
        ensures
            r@ == (TypeDefModel { constraints: constraints@, ..self@ }),
    {
        let mut s = self;
        s.constraints = constraints;
        s
    }

    /// Set whether the type should be exported.
    pub fn with_export(self, exported: bool) -> (r: Self)
        ensures
            r@ == (TypeDefModel { exported, ..self@ }),
    {
        let mut s = self;
        s.exported = exported;
        s
    }
}

impl Type {
    /// Create an any type.
    pub fn any() -> (r: Self)
        ensures
            r@ == TypeModel::Any,
    {
        Type::Any
    }

    /// Create a never type.
    pub fn never() -> (r: Self)
        ensures
            r@ == TypeModel::Never,
    {
        Type::Never
    }

    /// Create a nil type.
    pub fn nil() -> (r: Self)
        ensures
            r@ == TypeModel::Nil,
    {
        Type::Nil
    }

    /// Create a boolean type.
    pub fn boolean() -> (r: Self)
        ensures
            r@ == TypeModel::Boolean,
    {
        Type::Boolean
    }

    /// Create a number type.
    pub fn number() -> (r: Self)
        ensures
            r@ == TypeModel::Number,
    {
        Type::Number
    }

    /// Create a string type.
    pub fn string() -> (r: Self)
        ensures
            r@ == TypeModel::String,
    {
        Type::String
    }

    /// Create a string literal type.
    pub fn string_literal(s: &str) -> (r: Self)
        ensures
            r@ == TypeModel::StringLiteral(s@),
    {
        Type::StringLiteral(owned(s))
    }

    /// Create a number literal type from the text the number is written with.
    pub fn number_literal(text: &str) -> (r: Self)
        ensures
            r@ == TypeModel::NumberLiteral(text@),
    {
        Type::NumberLiteral(owned(text))
    }

    /// Create a boolean literal type.
    pub fn boolean_literal(b: bool) -> (r: Self)
        ensures
            r@ == TypeModel::BooleanLiteral(b),
    {
        Type::BooleanLiteral(b)
    }

    /// Create an array type.
    pub fn array(element: Type) -> (r: Self)
        ensures
            r@ == TypeModel::Array(Box::new(element@)),
    {
        Type::Array(Box::new(element))
    }

    /// Create an object type.
    pub fn object(obj: ObjectType) -> (r: Self)
        ensures
            r@ == TypeModel::Object(obj@),
    {
        Type::Object(Box::new(obj))
    }

    /// Create a union type (anyOf, oneOf, multi-type). Preserves the
    /// source order of variants and flattens/deduplicates nested unions.
    pub fn union(types: Vec<Type>) -> (r: Self)
        ensures
            r@ == union_of(types_model(types@)),
    {
        let ghost given = types@;
        let mut flattened: Vec<Type> = Vec::new();
        for ty in it: types
            invariant
                it.seq() == given,
                types_model(flattened@) == flatten_union(
                    types_model(given.take(it.index() as int)),
                ),
        {
            proof {
                let k = it.index() as int;
                assert(given.take(k + 1) == given.take(k).push(given[k]));
                lemma_types_model_push(given.take(k), given[k]);
                lemma_flatten_union_push(types_model(given.take(k)), given[k]@);
            }
            match ty {
                Type::Union(inner) => {
                    let mut inner = inner;
                    proof {
                        lemma_types_model_concat(flattened@, inner@);
                    }
                    flattened.append(&mut inner);
                },
                Type::EnumUnion(inner) => {
                    let mut inner = inner;
                    proof {
                        lemma_types_model_concat(flattened@, inner@);
                    }
                    flattened.append(&mut inner);
                },
                other => {
                    proof {
                        lemma_types_model_push(flattened@, other);
                    }
                    flattened.push(other);
                },
            }
        }
        assert(given.take(given.len() as int) == given);
        let ghost flat = flattened@;
        let mut deduped: Vec<Type> = Vec::new();
        for ty in it: flattened
            invariant
                it.seq() == flat,
                types_model(deduped@) == dedup(types_model(flat.take(it.index() as int))),
        {
            proof {
                let k = it.index() as int;
                assert(flat.take(k + 1) == flat.take(k).push(flat[k]));
                lemma_types_model_push(flat.take(k), flat[k]);
                lemma_dedup_push(types_model(flat.take(k)), flat[k]@);
            }
            if !contains_type(&deduped, &ty) {
                proof {
                    lemma_types_model_push(deduped@, ty);
                }
                deduped.push(ty);
            }
        }
        assert(flat.take(flat.len() as int) == flat);
        proof {
            lemma_types_model(deduped@);
        }
        if deduped.len() == 0 {
            Type::Never
        } else if deduped.len() == 1 {
            deduped.remove(0)
        } else {
            Type::Union(deduped)
        }
    }

    /// Create an enum-derived union of string literals (no parentheses).
    pub fn enum_union(types: Vec<Type>) -> (r: Self)
        ensures
            r@ == enum_union_of(types_model(types@)),
    {
        proof {
            lemma_types_model(types@);
        }
        let mut types = types;
        if types.len() == 0 {
            Type::Never
        } else if types.len() == 1 {
            types.remove(0)
        } else {
            Type::EnumUnion(types)
        }
    }

    /// Create an intersection type.
    pub fn intersection(types: Vec<Type>) -> (r: Self)
        ensures
            r@ == intersection_of(types_model(types@)),
    {
        let ghost given = types@;
        let mut flattened: Vec<Type> = Vec::new();
        for ty in it: types
            invariant
                it.seq() == given,
                types_model(flattened@) == flatten_intersection(
                    types_model(given.take(it.index() as int)),
                ),
        {
            proof {
                let k = it.index() as int;
                assert(given.take(k + 1) == given.take(k).push(given[k]));
                lemma_types_model_push(given.take(k), given[k]);
                lemma_flatten_intersection_push(types_model(given.take(k)), given[k]@);
            }
            match ty {
                Type::Intersection(inner) => {
                    let mut inner = inner;
                    proof {
                        lemma_types_model_concat(flattened@, inner@);
                    }
                    flattened.append(&mut inner);
                },
                other => {
                    proof {
                        lemma_types_model_push(flattened@, other);
                    }
                    flattened.push(other);
                },
            }
        }
        assert(given.take(given.len() as int) == given);
        proof {
            lemma_types_model(flattened@);
        }
        if flattened.len() == 0 {
            Type::Any
        } else if flattened.len() == 1 {
            flattened.remove(0)
        } else {
            Type::Intersection(flattened)
        }
    }

    /// Create a reference type.
    pub fn reference(name: &str) -> (r: Self)
        ensures
            r@ == TypeModel::Reference(name@),
    {
        Type::Reference(owned(name))
    }

    /// Create a map type.
    pub fn map(value: Type) -> (r: Self)
        ensures
            r@ == TypeModel::Dictionary(Box::new(value@)),
    {
        Type::Dictionary(Box::new(value))
    }

    /// Create a tuple type.
    pub fn tuple(elements: Vec<Type>) -> (r: Self)
        ensures
            r@ == TypeModel::Tuple(types_model(elements@)),
    {
        Type::Tuple(elements)
    }

    /// Check if this type is a simple primitive.
    pub fn is_primitive(&self) -> (r: bool)
        ensures
            r == is_primitive_model(self@),
    {
        match self {
            Type::Any | Type::Never | Type::Nil | Type::Boolean | Type::Number | Type::String
            | Type::StringLiteral(_) | Type::NumberLiteral(_) | Type::BooleanLiteral(_) => true,
            _ => false,
        }
    }

    /// Check if this type needs parentheses when used in a union/intersection.
    pub fn needs_parens(&self) -> (r: bool)
        ensures
            r == needs_parens_model(self@),
    {
        match self {
            Type::Union(_) | Type::Intersection(_) => true,
            _ => false,
        }
    }
}

impl ObjectType {
    /// Create a new empty object type.
    pub fn new() -> (r: Self)
        ensures
            r@ == (ObjectModel { properties: Seq::empty(), additional_properties: None }),
    {
        ObjectType { properties: Vec::new(), additional_properties: None }
    }

    /// Add a property to the object.
    pub fn with_property(self, prop: Property) -> (r: Self)
        ensures
            r@ == (ObjectModel { properties: self@.properties.push(prop@), ..self@ }),
    {
        let mut s = self;
        proof {
            lemma_properties_model_push(s.properties@, prop);
        }
        s.properties.push(prop);
        s
    }

    /// Set additional properties behavior.
    pub fn with_additional_properties(self, additional: AdditionalProperties) -> (r: Self)
        ensures
            r@ == (ObjectModel { additional_properties: Some(additional@), ..self@ }),
    {
        let mut s = self;
        s.additional_properties = Some(additional);
        s
    }

    /// Check if the object has any properties.
    pub fn is_empty(&self) -> (r: bool)
        ensures
            r == (self@.properties.len() == 0 && self@.additional_properties is None),
    {
        proof {
            lemma_properties_model(self.properties@);
        }
        self.properties.len() == 0 && self.additional_properties.is_none()
    }
}

impl Default for ObjectType {
    fn default() -> (r: Self)
        ensures
            r@ == (ObjectModel { properties: Seq::empty(), additional_properties: None }),
    {
        ObjectType::new()
    }
}

impl Property {
    /// Create a new required property.
    pub fn required(name: &str, ty: Type) -> (r: Self)
        ensures
            r@ == (PropertyModel {
                name: name@,
                ty: ty@,
                optional: false,
                description: None,
                constraints: no_constraints(),
                extra_constraints: no_constraints(),
            }),
    {
        Property {
            name: owned(name),
            ty,
            optional: false,
            description: None,
            constraints: Constraints::new(),
            extra_constraints: Constraints::new(),
        }
    }

    /// Create a new optional property.
    pub fn optional(name: &str, ty: Type) -> (r: Self)
        ensures
            r@ == (PropertyModel {
                name: name@,
                ty: ty@,
                optional: true,
                description: None,
                constraints: no_constraints(),
                extra_constraints: no_constraints(),
            }),
    {
        Property {
            name: owned(name),
            ty,
            optional: true,
            description: None,
            constraints: Constraints::new(),
            extra_constraints: Constraints::new(),
        }
    }

    /// Add a description to the property.
    pub fn with_description(self, desc: &str) -> (r: Self)
        ensures
            r@ == (PropertyModel { description: Some(desc@), ..self@ }),
    {
        let mut s = self;
        s.description = Some(owned(desc));
        s
    }

    /// Set constraints for the property.
    pub fn with_constraints(self, constraints: Constraints) -> (r: Self)
        ensures
            r@ == (PropertyModel { constraints: constraints@, ..self@ }),
    {
        let mut s = self;
        s.constraints = constraints;
        s
    }

    /// Set extra (additionalProperties) constraints for the property.
    pub fn with_extra_constraints(self, constraints: Constraints) -> (r: Self)
        ensures
            r@ == (PropertyModel { extra_constraints: constraints@, ..self@ }),
    {
        let mut s = self;
        s.extra_constraints = constraints;
        s
    }

    /// Mark the property as optional.
    pub fn make_optional(self) -> (r: Self)
        ensures
            r@ == (PropertyModel { optional: true, ..self@ }),
    {
        let mut s = self;
        s.optional = true;
        s
    }
}

impl AdditionalProperties {
    /// Create additional properties that allow any type.
    pub fn any() -> (r: Self)
        ensures
            r@ == AdditionalModel::Any,
    {
        AdditionalProperties::Any
    }

    /// Create additional properties that disallow any extra properties.
    pub fn none() -> (r: Self)
        ensures
            r@ == AdditionalModel::False,
    {
        AdditionalProperties::False
    }

    /// Create additional properties with a specific schema.
    pub fn schema(ty: Type) -> (r: Self)
        ensures
            r@ == AdditionalModel::Schema(Box::new(ty@)),
    {
        AdditionalProperties::Schema(Box::new(ty))
    }
}

/// Whether a constraint set holds no constraint.
pub open spec fn constraints_empty(c: ConstraintsModel) -> bool {
    c == no_constraints()
}

impl Constraints {
    /// Create empty constraints.
    pub fn new() -> (r: Self)
        ensures
            r@ == no_constraints(),
    {
        Constraints {
            minimum: None,
            maximum: None,
            exclusive_minimum: None,
            exclusive_maximum: None,
            multiple_of: None,
            min_length: None,
            max_length: None,
            pattern: None,
            format: None,
            min_items: None,
            max_items: None,
            unique_items: None,
            min_properties: None,
            max_properties: None,
        }
    }

    /// Check if there are any constraints.
    pub fn is_empty(&self) -> (r: bool)
        ensures
            r == constraints_empty(self@),
    {
        self.minimum.is_none() && self.maximum.is_none() && self.exclusive_minimum.is_none()
            && self.exclusive_maximum.is_none() && self.multiple_of.is_none()
            && self.min_length.is_none() && self.max_length.is_none() && self.pattern.is_none()
            && self.format.is_none() && self.min_items.is_none() && self.max_items.is_none()
            && self.unique_items.is_none() && self.min_properties.is_none()
            && self.max_properties.is_none()
    }

    /// Set minimum value (as the text it is written with).
    pub fn with_minimum(self, min: &str) -> (r: Self)
        ensures
            r@ == (ConstraintsModel { minimum: Some(min@), ..self@ }),
    {
        let mut s = self;
        s.minimum = Some(owned(min));
        s
    }

    /// Set maximum value (as the text it is written with).
    pub fn with_maximum(self, max: &str) -> (r: Self)
        ensures
            r@ == (ConstraintsModel { maximum: Some(max@), ..self@ }),
    {
        let mut s = self;
        s.maximum = Some(owned(max));
        s
    }

    /// Set exclusive minimum (as the text it is written with).
    pub fn with_exclusive_minimum(self, min: &str) -> (r: Self)
        ensures
            r@ == (ConstraintsModel { exclusive_minimum: Some(min@), ..self@ }),
    {
        let mut s = self;
        s.exclusive_minimum = Some(owned(min));
        s
    }

    /// Set exclusive maximum (as the text it is written with).
    pub fn with_exclusive_maximum(self, max: &str) -> (r: Self)
        ensures
            r@ == (ConstraintsModel { exclusive_maximum: Some(max@), ..self@ }),
    {
        let mut s = self;
        s.exclusive_maximum = Some(owned(max));
        s
    }

    /// Set multiple of (as the text it is written with).
    pub fn with_multiple_of(self, multiple: &str) -> (r: Self)
        ensures
            r@ == (ConstraintsModel { multiple_of: Some(multiple@), ..self@ }),
    {
        let mut s = self;
        s.multiple_of = Some(owned(multiple));
        s
    }

    /// Set minimum length.
    pub fn with_min_length(self, min: usize) -> (r: Self)
        ensures
            r@ == (ConstraintsModel { min_length: Some(min), ..self@ }),
    {
        let mut s = self;
        s.min_length = Some(min);
        s
    }

    /// Set maximum length.
    pub fn with_max_length(self, max: usize) -> (r: Self)
        ensures
            r@ == (ConstraintsModel { max_length: Some(max), ..self@ }),
    {
        let mut s = self;
        s.max_length = Some(max);
        s
    }

    /// Set pattern.
    pub fn with_pattern(self, pattern: &str) -> (r: Self)
        ensures
            r@ == (ConstraintsModel { pattern: Some(pattern@), ..self@ }),
    {
        let mut s = self;
        s.pattern = Some(owned(pattern));
        s
    }

    /// Set format.
    pub fn with_format(self, format: &str) -> (r: Self)
        ensures
            r@ == (ConstraintsModel { format: Some(format@), ..self@ }),
    {
        let mut s = self;
        s.format = Some(owned(format));
        s
    }

    /// Set minimum items.
    pub fn with_min_items(self, min: usize) -> (r: Self)
        ensures
            r@ == (ConstraintsModel { min_items: Some(min), ..self@ }),
    {
        let mut s = self;
        s.min_items = Some(min);
        s
    }

    /// Set maximum items.
    pub fn with_max_items(self, max: usize) -> (r: Self)
        ensures
            r@ == (ConstraintsModel { max_items: Some(max), ..self@ }),
    {
        let mut s = self;
        s.max_items = Some(max);
        s
    }

    /// Set unique items.
    pub fn with_unique_items(self, unique: bool) -> (r: Self)
        ensures
            r@ == (ConstraintsModel { unique_items: Some(unique), ..self@ }),
    {
        let mut s = self;
        s.unique_items = Some(unique);
        s
    }

    /// Set minimum properties.
    pub fn with_min_properties(self, min: usize) -> (r: Self)
        ensures
            r@ == (ConstraintsModel { min_properties: Some(min), ..self@ }),
    {
        let mut s = self;
        s.min_properties = Some(min);
        s
    }

    /// Set maximum properties.
    pub fn with_max_properties(self, max: usize) -> (r: Self)
        ensures
            r@ == (ConstraintsModel { max_properties: Some(max), ..self@ }),
    {
        let mut s = self;
        s.max_properties = Some(max);
        s
    }
}

impl Default for Constraints {
    fn default() -> (r: Self)
        ensures
            r@ == no_constraints(),
    {
        Constraints::new()
    }
}

} // verus!
