//! The JSON Schema document model the parser reads.
//!
//! Every schema value has a mathematical model (its view, `@`).  Numbers
//! appear as the decimal text they are written with in the generated output.

use vstd::prelude::*;

use crate::ir::types::opt_text;
use crate::keyed::{
    entries_insert, keyed, keys_sorted, law_map_insert_sorted, lemma_map_insert_map_values,
    map_entry_values, map_insert,
};

verus! {

broadcast use vstd::std_specs::vec::group_vec_axioms;

// ---------------------------------------------------------------------------
// Executable types
// ---------------------------------------------------------------------------

/// A JSON value, as found under `enum` and `const`.
#[derive(Debug)]
pub enum JsonValue {
    /// `null`.
    Null,
    /// `true` or `false`.
    Bool(bool),
    /// A number, as the decimal text it is written with.
    Number(String),
    /// A string.
    String(String),
    /// An array.
    Array(Vec<JsonValue>),
    /// An object, as its members in document order.
    Object(Vec<(String, JsonValue)>),
}

/// One of the primitive type names of JSON Schema.
#[derive(Debug, Clone, Copy, PartialEq, Eq, Structural)]
pub enum SingleType {
    /// `"string"`.
    String,
    /// `"number"`.
    Number,
    /// `"integer"`.
    Integer,
    /// `"boolean"`.
    Boolean,
    /// `"null"`.
    Null,
    /// `"array"`.
    Array,
    /// `"object"`.
    Object,
}

/// The `type` keyword: one type name or a list of them.
#[derive(Debug)]
pub enum SchemaType {
    /// A single type name.
    Single(SingleType),
    /// A list of type names.
    Multiple(Vec<SingleType>),
}

/// A schema: `true`, `false`, or a schema object.
#[derive(Debug)]
pub enum JsonSchema {
    /// `true` accepts anything, `false` accepts nothing.
    Boolean(bool),
    /// A schema object.
    Object(SchemaObject),
}

/// The `additionalProperties` keyword.
#[derive(Debug)]
pub enum AdditionalProperties {
    /// `true` or `false`.
    Boolean(bool),
    /// A schema for the additional properties.
    Schema(Box<JsonSchema>),
}

/// Named sub-schemas (`properties`, `definitions`, `$defs`), kept in
/// ascending order of their names; a name occurs at most once.
#[derive(Debug)]
pub struct SchemaMap {
    pub(crate) entries: Vec<(String, JsonSchema)>,
}

/// A schema object with the keywords the converter reads.
#[derive(Debug)]
pub struct SchemaObject {
    /// `$ref`.
    pub ref_: Option<String>,
    /// `enum`.
    pub enum_: Option<Vec<JsonValue>>,
    /// `const`.
    pub const_: Option<JsonValue>,
    /// `allOf`.
    pub all_of: Option<Vec<JsonSchema>>,
    /// `anyOf`.
    pub any_of: Option<Vec<JsonSchema>>,
    /// `oneOf`.
    pub one_of: Option<Vec<JsonSchema>>,
    /// `type`.
    pub type_: Option<SchemaType>,
    /// `properties`.
    pub properties: Option<SchemaMap>,
    /// `required`.
    pub required: Option<Vec<String>>,
    /// `additionalProperties`.
    pub additional_properties: Option<AdditionalProperties>,
    /// `items`.
    pub items: Option<Box<JsonSchema>>,
    /// `description`.
    pub description: Option<String>,
    /// `definitions`.
    pub definitions: Option<SchemaMap>,
    /// `$defs`.
    pub defs: Option<SchemaMap>,
    /// `minimum`, as written.
    pub minimum: Option<String>,
    /// `maximum`, as written.
    pub maximum: Option<String>,
    /// `exclusiveMinimum`, as written.
    pub exclusive_minimum: Option<String>,
    /// `exclusiveMaximum`, as written.
    pub exclusive_maximum: Option<String>,
    /// `multipleOf`, as written.
    pub multiple_of: Option<String>,
    /// `minLength`.
    pub min_length: Option<usize>,
    /// `maxLength`.
    pub max_length: Option<usize>,
    /// `pattern`.
    pub pattern: Option<String>,
    /// `format`.
    pub format: Option<String>,
    /// `minItems`.
    pub min_items: Option<usize>,
    /// `maxItems`.
    pub max_items: Option<usize>,
    /// `uniqueItems`.
    pub unique_items: Option<bool>,
    /// `minProperties`.
    pub min_properties: Option<usize>,
    /// `maxProperties`.
    pub max_properties: Option<usize>,
}

// ---------------------------------------------------------------------------
// Models
// ---------------------------------------------------------------------------

/// Model of [`JsonValue`].
pub enum JsonValueModel {
    Null,
    Bool(bool),
    Number(Seq<char>),
    String(Seq<char>),
    Array(Seq<JsonValueModel>),
    Object(Seq<(Seq<char>, JsonValueModel)>),
}

/// Model of [`SchemaType`].
pub enum SchemaTypeModel {
    Single(SingleType),
    Multiple(Seq<SingleType>),
}

/// Model of [`JsonSchema`].
pub enum SchemaModel {
    Boolean(bool),
    Object(SchemaObjectModel),
}

/// Model of [`AdditionalProperties`].
pub enum AdditionalSchemaModel {
    Boolean(bool),
    Schema(Box<SchemaModel>),
}

/// Model of [`SchemaObject`].
pub struct SchemaObjectModel {
    pub ref_: Option<Seq<char>>,
    pub enum_: Option<Seq<JsonValueModel>>,
    pub const_: Option<JsonValueModel>,
    pub all_of: Option<Seq<SchemaModel>>,
    pub any_of: Option<Seq<SchemaModel>>,
    pub one_of: Option<Seq<SchemaModel>>,
    pub type_: Option<SchemaTypeModel>,
    pub properties: Option<Seq<(Seq<char>, SchemaModel)>>,
    pub required: Option<Seq<Seq<char>>>,
    pub additional_properties: Option<AdditionalSchemaModel>,
    pub items: Option<Box<SchemaModel>>,
    pub description: Option<Seq<char>>,
    pub definitions: Option<Seq<(Seq<char>, SchemaModel)>>,
    pub defs: Option<Seq<(Seq<char>, SchemaModel)>>,
    pub minimum: Option<Seq<char>>,
    pub maximum: Option<Seq<char>>,
    pub exclusive_minimum: Option<Seq<char>>,
    pub exclusive_maximum: Option<Seq<char>>,
    pub multiple_of: Option<Seq<char>>,
    pub min_length: Option<usize>,
    pub max_length: Option<usize>,
    pub pattern: Option<Seq<char>>,
    pub format: Option<Seq<char>>,
    pub min_items: Option<usize>,
    pub max_items: Option<usize>,
    pub unique_items: Option<bool>,
    pub min_properties: Option<usize>,
    pub max_properties: Option<usize>,
}

/// The model of a JSON value.
pub open spec fn json_value_model(v: JsonValue) -> JsonValueModel
    decreases v,
{
    match v {
        JsonValue::Null => JsonValueModel::Null,
        JsonValue::Bool(b) => JsonValueModel::Bool(b),
        JsonValue::Number(n) => JsonValueModel::Number(n@),
        JsonValue::String(s) => JsonValueModel::String(s@),
        JsonValue::Array(items) => JsonValueModel::Array(json_values_model(items@)),
        JsonValue::Object(members) => JsonValueModel::Object(json_members_model(members@)),
    }
}

/// The models of a sequence of JSON values.
pub open spec fn json_values_model(s: Seq<JsonValue>) -> Seq<JsonValueModel>
    decreases s,
{
    if s.len() == 0 {
        Seq::empty()
    } else {
        json_values_model(s.drop_last()).push(json_value_model(s.last()))
    }
}

/// The models of the members of a JSON object.
pub open spec fn json_members_model(s: Seq<(String, JsonValue)>) -> Seq<(Seq<char>, JsonValueModel)>
    decreases s,
{
    if s.len() == 0 {
        Seq::empty()
    } else {
        json_members_model(s.drop_last()).push((s.last().0@, json_value_model(s.last().1)))
    }
}

/// The model of a `type` keyword.
pub open spec fn schema_type_model(t: SchemaType) -> SchemaTypeModel {
    match t {
        SchemaType::Single(s) => SchemaTypeModel::Single(s),
        SchemaType::Multiple(v) => SchemaTypeModel::Multiple(v@),
    }
}

/// The model of a schema.
pub open spec fn schema_model(s: JsonSchema) -> SchemaModel
    decreases s,
{
    match s {
        JsonSchema::Boolean(b) => SchemaModel::Boolean(b),
        JsonSchema::Object(o) => SchemaModel::Object(schema_object_model(o)),
    }
}

/// The models of a sequence of schemas.
pub open spec fn schemas_model(s: Seq<JsonSchema>) -> Seq<SchemaModel>
    decreases s,
{
    if s.len() == 0 {
        Seq::empty()
    } else {
        schemas_model(s.drop_last()).push(schema_model(s.last()))
    }
}

/// The models of named schemas.
pub open spec fn entries_model(s: Seq<(String, JsonSchema)>) -> Seq<(Seq<char>, SchemaModel)>
    decreases s,
{
    if s.len() == 0 {
        Seq::empty()
    } else {
        entries_model(s.drop_last()).push((s.last().0@, schema_model(s.last().1)))
    }
}

/// The model of an optional list of schemas.
pub open spec fn opt_schemas_model(o: Option<Vec<JsonSchema>>) -> Option<Seq<SchemaModel>>
    decreases o,
{
    match o {
        Some(v) => Some(schemas_model(v@)),
        None => None,
    }
}

/// The model of an optional map of named schemas.
pub closed spec fn opt_map_model(o: Option<SchemaMap>) -> Option<Seq<(Seq<char>, SchemaModel)>>
    decreases o,
{
    match o {
        Some(m) => Some(entries_model(m.entries@)),
        None => None,
    }
}

/// The model of an `additionalProperties` keyword.
pub open spec fn additional_schema_model(a: AdditionalProperties) -> AdditionalSchemaModel
    decreases a,
{
    match a {
        AdditionalProperties::Boolean(b) => AdditionalSchemaModel::Boolean(b),
        AdditionalProperties::Schema(s) => AdditionalSchemaModel::Schema(
            Box::new(schema_model(*s)),
        ),
    }
}

/// The model of a schema object.
pub open spec fn schema_object_model(o: SchemaObject) -> SchemaObjectModel
    decreases o,
{
    SchemaObjectModel {
        ref_: opt_text(o.ref_),
        enum_: match o.enum_ {
            Some(v) => Some(json_values_model(v@)),
            None => None,
        },
        const_: match o.const_ {
            Some(v) => Some(json_value_model(v)),
            None => None,
        },
        all_of: opt_schemas_model(o.all_of),
        any_of: opt_schemas_model(o.any_of),
        one_of: opt_schemas_model(o.one_of),
        type_: match o.type_ {
            Some(t) => Some(schema_type_model(t)),
            None => None,
        },
        properties: opt_map_model(o.properties),
        required: match o.required {
            Some(r) => Some(r@.map_values(|s: String| s@)),
            None => None,
        },
        additional_properties: match o.additional_properties {
            Some(a) => Some(additional_schema_model(a)),
            None => None,
        },
        items: match o.items {
            Some(s) => Some(Box::new(schema_model(*s))),
            None => None,
        },
        description: opt_text(o.description),
        definitions: opt_map_model(o.definitions),
        defs: opt_map_model(o.defs),
        minimum: opt_text(o.minimum),
        maximum: opt_text(o.maximum),
        exclusive_minimum: opt_text(o.exclusive_minimum),
        exclusive_maximum: opt_text(o.exclusive_maximum),
        multiple_of: opt_text(o.multiple_of),
        min_length: o.min_length,
        max_length: o.max_length,
        pattern: opt_text(o.pattern),
        format: opt_text(o.format),
        min_items: o.min_items,
        max_items: o.max_items,
        unique_items: o.unique_items,
        min_properties: o.min_properties,
        max_properties: o.max_properties,
    }
}

impl View for JsonValue {
    type V = JsonValueModel;

    open spec fn view(&self) -> JsonValueModel {
        json_value_model(*self)
    }
}

impl View for JsonSchema {
    type V = SchemaModel;

    open spec fn view(&self) -> SchemaModel {
        schema_model(*self)
    }
}

impl View for SchemaObject {
    type V = SchemaObjectModel;

    open spec fn view(&self) -> SchemaObjectModel {
        schema_object_model(*self)
    }
}

impl View for SchemaMap {
    type V = Seq<(Seq<char>, SchemaModel)>;

    closed spec fn view(&self) -> Seq<(Seq<char>, SchemaModel)> {
        entries_model(self.entries@)
    }
}

// ---------------------------------------------------------------------------
// Model lemmas
// ---------------------------------------------------------------------------

/// The model of a map is the model of its entries.
pub(crate) proof fn lemma_map_view(m: SchemaMap)
    ensures
        m@ == entries_model(m.entries@),
{
}

/// The model of an optional map is the model of the map.
pub proof fn lemma_opt_map_model(o: Option<SchemaMap>)
    ensures
        opt_map_model(o) == (match o {
            Some(m) => Some(m@),
            None => None::<Seq<(Seq<char>, SchemaModel)>>,
        }),
{
}

/// `entries_model` is `keyed` followed by taking the model of each schema.
pub proof fn lemma_entries_model(s: Seq<(String, JsonSchema)>)
    ensures
        entries_model(s) == map_entry_values(keyed(s), |x: JsonSchema| schema_model(x)),
    decreases s.len(),
{
    if s.len() > 0 {
        lemma_entries_model(s.drop_last());
        assert(keyed(s).drop_last() == keyed(s.drop_last()));
        assert(map_entry_values(keyed(s), |x: JsonSchema| schema_model(x)) =~= map_entry_values(
            keyed(s.drop_last()),
            |x: JsonSchema| schema_model(x),
        ).push((s.last().0@, schema_model(s.last().1))));
    } else {
        assert(map_entry_values(keyed(s), |x: JsonSchema| schema_model(x)) =~= Seq::<
            (Seq<char>, SchemaModel),
        >::empty());
    }
}

/// `entries_model` keeps length and position.
pub proof fn lemma_entries_model_index(s: Seq<(String, JsonSchema)>)
    ensures
        entries_model(s).len() == s.len(),
        forall|i: int|
            0 <= i < s.len() ==> #[trigger] entries_model(s)[i] == (s[i].0@, s[i].1@),
{
    lemma_entries_model(s);
}

/// `schemas_model` keeps length and position.
pub proof fn lemma_schemas_model(s: Seq<JsonSchema>)
    ensures
        schemas_model(s).len() == s.len(),
        forall|i: int| 0 <= i < s.len() ==> #[trigger] schemas_model(s)[i] == s[i]@,
    decreases s.len(),
{
    if s.len() > 0 {
        lemma_schemas_model(s.drop_last());
    }
}

/// `json_values_model` keeps length and position.
pub proof fn lemma_json_values_model(s: Seq<JsonValue>)
    ensures
        json_values_model(s).len() == s.len(),
        forall|i: int| 0 <= i < s.len() ==> #[trigger] json_values_model(s)[i] == s[i]@,
    decreases s.len(),
{
    if s.len() > 0 {
        lemma_json_values_model(s.drop_last());
    }
}

/// `json_members_model` keeps length and position.
pub proof fn lemma_json_members_model(s: Seq<(String, JsonValue)>)
    ensures
        json_members_model(s).len() == s.len(),
        forall|i: int|
            0 <= i < s.len() ==> #[trigger] json_members_model(s)[i] == (s[i].0@, s[i].1@),
    decreases s.len(),
{
    if s.len() > 0 {
        lemma_json_members_model(s.drop_last());
    }
}

// ---------------------------------------------------------------------------
// Maps of named schemas
// ---------------------------------------------------------------------------

impl SchemaMap {
    /// The names are strictly ascending.
    #[verifier::type_invariant]
    spec fn names_ascending(self) -> bool {
        keys_sorted(keyed(self.entries@))
    }

    /// Create an empty map.
    pub fn new() -> (r: Self)
        ensures
            r@ == Seq::<(Seq<char>, SchemaModel)>::empty(),
    {
        SchemaMap { entries: Vec::new() }
    }

    /// The names of a map are strictly ascending.
    proof fn lemma_sorted_view(&self)
        requires
            keys_sorted(keyed(self.entries@)),
        ensures
            keys_sorted(self@),
    {
        lemma_entries_model(self.entries@);
        assert forall|i: int, j: int| 0 <= i < j < self@.len() implies crate::text::lex_lt(
            #[trigger] self@[i].0,
            #[trigger] self@[j].0,
        ) by {
            assert(self@[i].0 == keyed(self.entries@)[i].0);
            assert(self@[j].0 == keyed(self.entries@)[j].0);
        }
    }

    /// Insert a named schema, replacing the schema of that name if there is one.
    pub fn insert(&mut self, name: String, schema: JsonSchema)
        ensures
            final(self)@ == map_insert(old(self)@, name@, schema@),
            keys_sorted(final(self)@),
    {
        proof {
            use_type_invariant(&*self);
            law_map_insert_sorted(keyed(self.entries@), name@, schema);
            lemma_entries_model(self.entries@);
            lemma_map_insert_map_values(
                keyed(self.entries@),
                name@,
                schema,
                |x: JsonSchema| schema_model(x),
            );
        }
        let mut entries: Vec<(String, JsonSchema)> = Vec::new();
        std::mem::swap(&mut entries, &mut self.entries);
        entries_insert(&mut entries, name, schema);
        self.entries = entries;
        proof {
            lemma_entries_model(self.entries@);
            self.lemma_sorted_view();
        }
    }

    /// The number of named schemas.
    pub fn len(&self) -> (r: usize)
        ensures
            r == self@.len(),
    {
        proof {
            lemma_entries_model(self.entries@);
        }
        self.entries.len()
    }

    /// The names, in ascending order.
    pub fn names(&self) -> (r: Vec<String>)
        ensures
            r@.len() == self@.len(),
            forall|i: int| 0 <= i < r@.len() ==> #[trigger] r@[i]@ == self@[i].0,
            keys_sorted(self@),
    {
        proof {
            use_type_invariant(self);
            lemma_entries_model_index(self.entries@);
            self.lemma_sorted_view();
        }
        let mut out: Vec<String> = Vec::new();
        let mut i: usize = 0;
        while i < self.entries.len()
            invariant
                i <= self.entries@.len(),
                out@.len() == i,
                forall|j: int| 0 <= j < i ==> #[trigger] out@[j]@ == self.entries@[j].0@,
            decreases self.entries@.len() - i,
        {
            out.push(self.entries[i].0.clone());
            i += 1;
        }
        out
    }

    /// The named schemas, in ascending order of their names.
    pub fn into_entries(self) -> (r: Vec<(String, JsonSchema)>)
        ensures
            entries_model(r@) == self@,
            keys_sorted(self@),
    {
        proof {
            use_type_invariant(&self);
            self.lemma_sorted_view();
        }
        let SchemaMap { entries } = self;
        entries
    }

    /// An independent copy.
    pub fn deep_clone(&self) -> (r: Self)
        ensures
            r@ == self@,
        decreases self, 0nat,
    {
        proof {
            use_type_invariant(self);
            lemma_entries_model_index(self.entries@);
        }
        let mut out: Vec<(String, JsonSchema)> = Vec::new();
        let mut i: usize = 0;
        while i < self.entries.len()
            invariant
                i <= self.entries@.len(),
                out@.len() == i,
                forall|j: int|
                    0 <= j < i ==> #[trigger] out@[j].0@ == self.entries@[j].0@ && out@[j].1@
                        == self.entries@[j].1@,
            decreases self.entries@.len() - i,
        {
            let name = self.entries[i].0.clone();
            let schema = self.entries[i].1.deep_clone();
            out.push((name, schema));
            i += 1;
        }
        proof {
            lemma_entries_model_index(out@);
            assert(entries_model(out@) =~= entries_model(self.entries@));
            assert forall|a: int, b: int| 0 <= a < b < keyed(out@).len() implies crate::text::lex_lt(
                #[trigger] keyed(out@)[a].0,
                #[trigger] keyed(out@)[b].0,
            ) by {
                assert(keyed(out@)[a].0 == keyed(self.entries@)[a].0);
                assert(keyed(out@)[b].0 == keyed(self.entries@)[b].0);
            }
        }
        SchemaMap { entries: out }
    }
}

fn clone_text_opt(o: &Option<String>) -> (r: Option<String>)
    ensures
        r == *o,
{
    match o {
        Some(s) => Some(s.clone()),
        None => None,
    }
}

fn clone_texts(v: &Vec<String>) -> (r: Vec<String>)
    ensures
        r@ == v@,
{
    let mut out: Vec<String> = Vec::new();
    let mut i: usize = 0;
    while i < v.len()
        invariant
            i <= v@.len(),
            out@ == v@.take(i as int),
        decreases v@.len() - i,
    {
        out.push(v[i].clone());
        assert(v@.take(i + 1) == v@.take(i as int).push(v@[i as int]));
        i += 1;
    }
    assert(v@.take(v@.len() as int) == v@);
    out
}

fn clone_single_types(v: &Vec<SingleType>) -> (r: Vec<SingleType>)
    ensures
        r@ == v@,
{
    let mut out: Vec<SingleType> = Vec::new();
    let mut i: usize = 0;
    while i < v.len()
        invariant
            i <= v@.len(),
            out@ == v@.take(i as int),
        decreases v@.len() - i,
    {
        out.push(v[i]);
        assert(v@.take(i + 1) == v@.take(i as int).push(v@[i as int]));
        i += 1;
    }
    assert(v@.take(v@.len() as int) == v@);
    out
}

impl JsonValue {
    /// An independent copy.
    pub fn deep_clone(&self) -> (r: Self)
        ensures
            r@ == self@,
        decreases self, 1nat,
    {
        match self {
            JsonValue::Null => JsonValue::Null,
            JsonValue::Bool(b) => JsonValue::Bool(*b),
            JsonValue::Number(n) => JsonValue::Number(n.clone()),
            JsonValue::String(t) => JsonValue::String(t.clone()),
            JsonValue::Array(items) => JsonValue::Array(clone_json_values(items)),
            JsonValue::Object(members) => JsonValue::Object(clone_json_members(members)),
        }
    }
}

fn clone_json_members(members: &Vec<(String, JsonValue)>) -> (r: Vec<(String, JsonValue)>)
    ensures
        json_members_model(r@) == json_members_model(members@),
    decreases members, 0nat,
{
    proof {
        lemma_json_members_model(members@);
    }
    let mut out: Vec<(String, JsonValue)> = Vec::new();
    let mut i: usize = 0;
    while i < members.len()
        invariant
            i <= members@.len(),
            out@.len() == i,
            forall|j: int|
                0 <= j < i ==> #[trigger] out@[j].0@ == members@[j].0@ && out@[j].1@
                    == members@[j].1@,
        decreases members@.len() - i,
    {
        out.push((members[i].0.clone(), members[i].1.deep_clone()));
        i += 1;
    }
    proof {
        lemma_json_members_model(out@);
        assert(json_members_model(out@) =~= json_members_model(members@));
    }
    out
}

fn clone_json_values(v: &Vec<JsonValue>) -> (r: Vec<JsonValue>)
    ensures
        json_values_model(r@) == json_values_model(v@),
    decreases v, 0nat,
{
    proof {
        lemma_json_values_model(v@);
    }
    let mut out: Vec<JsonValue> = Vec::new();
    let mut i: usize = 0;
    while i < v.len()
        invariant
            i <= v@.len(),
            out@.len() == i,
            forall|j: int| 0 <= j < i ==> #[trigger] out@[j]@ == v@[j]@,
        decreases v@.len() - i,
    {
        out.push(v[i].deep_clone());
        i += 1;
    }
    proof {
        lemma_json_values_model(out@);
        assert(json_values_model(out@) =~= json_values_model(v@));
    }
    out
}

fn clone_schemas(v: &Vec<JsonSchema>) -> (r: Vec<JsonSchema>)
    ensures
        schemas_model(r@) == schemas_model(v@),
    decreases v, 0nat,
{
    proof {
        lemma_schemas_model(v@);
    }
    let mut out: Vec<JsonSchema> = Vec::new();
    let mut i: usize = 0;
    while i < v.len()
        invariant
            i <= v@.len(),
            out@.len() == i,
            forall|j: int| 0 <= j < i ==> #[trigger] out@[j]@ == v@[j]@,
        decreases v@.len() - i,
    {
        out.push(v[i].deep_clone());
        i += 1;
    }
    proof {
        lemma_schemas_model(out@);
        assert(schemas_model(out@) =~= schemas_model(v@));
    }
    out
}

fn clone_opt_schemas(o: &Option<Vec<JsonSchema>>) -> (r: Option<Vec<JsonSchema>>)
    ensures
        opt_schemas_model(r) == opt_schemas_model(*o),
    decreases o, 1nat,
{
    match o {
        Some(v) => Some(clone_schemas(v)),
        None => None,
    }
}

fn clone_opt_map(o: &Option<SchemaMap>) -> (r: Option<SchemaMap>)
    ensures
        opt_map_model(r) == opt_map_model(*o),
    decreases o, 1nat,
{
    match o {
        Some(m) => Some(m.deep_clone()),
        None => None,
    }
}

impl JsonSchema {
    /// An independent copy.
    pub fn deep_clone(&self) -> (r: Self)
        ensures
            r@ == self@,
        decreases self, 3nat,
    {
        match self {
            JsonSchema::Boolean(b) => JsonSchema::Boolean(*b),
            JsonSchema::Object(o) => JsonSchema::Object(o.deep_clone()),
        }
    }
}

impl SchemaObject {
    /// A schema object with no keyword set.
    pub fn new() -> (r: Self)
        ensures
            r@ == empty_schema_object(),
    {
        SchemaObject {
            ref_: None,
            enum_: None,
            const_: None,
            all_of: None,
            any_of: None,
            one_of: None,
            type_: None,
            properties: None,
            required: None,
            additional_properties: None,
            items: None,
            description: None,
            definitions: None,
            defs: None,
            minimum: None,
            maximum: None,
            exclusive_minimum: None,
            exclusive_maximum: None,
            multiple_of: None,
            min_length: None,
            max_length: None,
            pattern: None,
            format: None,
            min_items: None,
            max_items: None,
            unique_items: None,
            min_properties: None,
            max_properties: None,
        }
    }

    /// An independent copy.
    pub fn deep_clone(&self) -> (r: Self)
        ensures
            r@ == self@,
        decreases self, 2nat,
    {
        let enum_ = match &self.enum_ {
            Some(v) => Some(clone_json_values(v)),
            None => None,
        };
        let const_ = match &self.const_ {
            Some(v) => Some(v.deep_clone()),
            None => None,
        };
        let type_ = match &self.type_ {
            Some(SchemaType::Single(t)) => Some(SchemaType::Single(*t)),
            Some(SchemaType::Multiple(v)) => Some(SchemaType::Multiple(clone_single_types(v))),
            None => None,
        };
        let required = match &self.required {
            Some(v) => Some(clone_texts(v)),
            None => None,
        };
        let additional_properties = match &self.additional_properties {
            Some(AdditionalProperties::Boolean(b)) => Some(AdditionalProperties::Boolean(*b)),
            Some(AdditionalProperties::Schema(s)) => Some(
                AdditionalProperties::Schema(Box::new(s.deep_clone())),
            ),
            None => None,
        };
        let items = match &self.items {
            Some(s) => Some(Box::new(s.deep_clone())),
            None => None,
        };
        SchemaObject {
            ref_: clone_text_opt(&self.ref_),
            enum_,
            const_,
            all_of: clone_opt_schemas(&self.all_of),
            any_of: clone_opt_schemas(&self.any_of),
            one_of: clone_opt_schemas(&self.one_of),
            type_,
            properties: clone_opt_map(&self.properties),
            required,
            additional_properties,
            items,
            description: clone_text_opt(&self.description),
            definitions: clone_opt_map(&self.definitions),
            defs: clone_opt_map(&self.defs),
            minimum: clone_text_opt(&self.minimum),
            maximum: clone_text_opt(&self.maximum),
            exclusive_minimum: clone_text_opt(&self.exclusive_minimum),
            exclusive_maximum: clone_text_opt(&self.exclusive_maximum),
            multiple_of: clone_text_opt(&self.multiple_of),
            min_length: self.min_length,
            max_length: self.max_length,
            pattern: clone_text_opt(&self.pattern),
            format: clone_text_opt(&self.format),
            min_items: self.min_items,
            max_items: self.max_items,
            unique_items: self.unique_items,
            min_properties: self.min_properties,
            max_properties: self.max_properties,
        }
    }
}

/// The model of a schema object with no keyword set.
pub open spec fn empty_schema_object() -> SchemaObjectModel {
    SchemaObjectModel {
        ref_: None,
        enum_: None,
        const_: None,
        all_of: None,
        any_of: None,
        one_of: None,
        type_: None,
        properties: None,
        required: None,
        additional_properties: None,
        items: None,
        description: None,
        definitions: None,
        defs: None,
        minimum: None,
        maximum: None,
        exclusive_minimum: None,
        exclusive_maximum: None,
        multiple_of: None,
        min_length: None,
        max_length: None,
        pattern: None,
        format: None,
        min_items: None,
        max_items: None,
        unique_items: None,
        min_properties: None,
        max_properties: None,
    }
}

} // verus!
