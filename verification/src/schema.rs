//! Interfaces and payload types as data: what a dynamic-language guest binds its calls by,
//! and what an inspector or a bindings generator reads.
//!
//! The wire format is JSON, so the vocabulary is JSON's plus two distinguished shapes: a
//! ref travels as an index into the payload's ref table, and a named type is a struct or
//! enum whose definition is listed once in [`Schema::types`].

use std::collections::HashMap;
use std::marker::PhantomData;
use vstd::prelude::*;
use crate::platform_types::Scalar;
use crate::text::same_text;

verus! {

/// An interface described as data.
#[derive(Debug, PartialEq)]
pub struct Schema {
    pub name: &'static str,
    pub methods: Vec<MethodSchema>,
    pub events: Vec<EventSchema>,
    /// Every named type the methods and events mention, transitively, each once.
    pub types: Vec<TypeDefinition>,
}

#[derive(Debug, PartialEq)]
pub struct MethodSchema {
    pub name: &'static str,
    pub arguments: Vec<ArgumentSchema>,
    /// The response type. For methods declared to return a ref this is
    /// [`TypeSchema::Ref`]; callers resolve it to a connected remote.
    pub response: TypeSchema,
    pub is_async: bool,
}

#[derive(Debug, PartialEq)]
pub struct ArgumentSchema {
    pub name: &'static str,
    pub ty: TypeSchema,
}

#[derive(Debug, PartialEq)]
pub struct EventSchema {
    pub name: &'static str,
    pub ty: TypeSchema,
}

/// The shape of a value in a payload.
#[derive(Debug, PartialEq)]
pub enum TypeSchema {
    /// JSON `null`.
    Unit,
    Bool,
    /// Any Rust integer; JSON has one number type.
    Integer,
    Float,
    String,
    Option(Box<TypeSchema>),
    List(Box<TypeSchema>),
    /// A string-keyed map.
    Dictionary(Box<TypeSchema>),
    Tuple(Vec<TypeSchema>),
    /// A capability to an object of the named interface, carried in the ref table.
    Ref(&'static str),
    /// A struct or enum, defined in [`Schema::types`].
    Named(&'static str),
}

/// The definition behind a [`TypeSchema::Named`].
#[derive(Debug, PartialEq)]
pub struct TypeDefinition {
    pub name: &'static str,
    pub kind: TypeKind,
}

/// How a named type is represented: externally tagged, as serde does by default.
#[derive(Debug, PartialEq)]
pub enum TypeKind {
    /// A struct with named fields: a JSON object.
    Struct(Vec<FieldSchema>),
    /// An enum: a unit variant is its name as a string; a variant with fields is
    /// `{"Variant": ...}` with an object (named fields) or a value/array (unnamed).
    Enum(Vec<VariantSchema>),
}

#[derive(Debug, PartialEq)]
pub struct FieldSchema {
    pub name: &'static str,
    pub ty: TypeSchema,
}

#[derive(Debug, PartialEq)]
pub struct VariantSchema {
    pub name: &'static str,
    pub fields: VariantFields,
}

#[derive(Debug, PartialEq)]
pub enum VariantFields {
    Unit,
    Named(Vec<FieldSchema>),
    Unnamed(Vec<TypeSchema>),
}

/// What a type schema says.
pub enum TypeModel {
    Unit,
    Bool,
    Integer,
    Float,
    Text,
    Optional(Box<TypeModel>),
    List(Box<TypeModel>),
    Dictionary(Box<TypeModel>),
    Tuple(Seq<TypeModel>),
    Ref(Seq<char>),
    Named(Seq<char>),
}

/// What a type schema says.
pub open spec fn type_model(schema: TypeSchema) -> TypeModel
    decreases schema,
{
    match schema {
        TypeSchema::Unit => TypeModel::Unit,
        TypeSchema::Bool => TypeModel::Bool,
        TypeSchema::Integer => TypeModel::Integer,
        TypeSchema::Float => TypeModel::Float,
        TypeSchema::String => TypeModel::Text,
        TypeSchema::Option(inner) => TypeModel::Optional(Box::new(type_model(*inner))),
        TypeSchema::List(inner) => TypeModel::List(Box::new(type_model(*inner))),
        TypeSchema::Dictionary(inner) => TypeModel::Dictionary(Box::new(type_model(*inner))),
        TypeSchema::Tuple(parts) => TypeModel::Tuple(type_models(parts@)),
        TypeSchema::Ref(name) => TypeModel::Ref(name@),
        TypeSchema::Named(name) => TypeModel::Named(name@),
    }
}

/// What some type schemas say, in order.
pub open spec fn type_models(schemas: Seq<TypeSchema>) -> Seq<TypeModel>
    decreases schemas,
{
    if schemas.len() == 0 {
        Seq::empty()
    } else {
        type_models(schemas.drop_last()).push(type_model(schemas.last()))
    }
}

/// What some type schemas say, one by one.
pub proof fn lemma_type_models(schemas: Seq<TypeSchema>)
    ensures
        type_models(schemas).len() == schemas.len(),
        forall|i: int|
            0 <= i < schemas.len() ==> #[trigger] type_models(schemas)[i] == type_model(schemas[i]),
    decreases schemas.len(),
{
    if schemas.len() > 0 {
        lemma_type_models(schemas.drop_last());
        assert forall|i: int| 0 <= i < schemas.len() implies #[trigger] type_models(schemas)[i]
            == type_model(schemas[i]) by {
            if i < schemas.len() - 1 {
                assert(type_models(schemas)[i] == type_models(schemas.drop_last())[i]);
            }
        }
    }
}

/// What a field, an argument or an event says: a name and a shape.
pub struct FieldModel {
    pub name: Seq<char>,
    pub ty: TypeModel,
}

/// A name with a shape.
pub open spec fn field(name: Seq<char>, ty: TypeModel) -> FieldModel {
    FieldModel { name, ty }
}

/// What some fields say, in order.
pub open spec fn field_models(fields: Seq<FieldSchema>) -> Seq<FieldModel> {
    fields.map_values(|one: FieldSchema| field(one.name@, type_model(one.ty)))
}

/// What some arguments say, in order.
pub open spec fn argument_models(arguments: Seq<ArgumentSchema>) -> Seq<FieldModel> {
    arguments.map_values(|one: ArgumentSchema| field(one.name@, type_model(one.ty)))
}

/// What some events say, in order.
pub open spec fn event_models(events: Seq<EventSchema>) -> Seq<FieldModel> {
    events.map_values(|one: EventSchema| field(one.name@, type_model(one.ty)))
}

/// What a variant's fields say.
pub enum VariantFieldsModel {
    Unit,
    Named(Seq<FieldModel>),
    Unnamed(Seq<TypeModel>),
}

/// What a variant says.
pub struct VariantModel {
    pub name: Seq<char>,
    pub fields: VariantFieldsModel,
}

/// A variant without fields.
pub open spec fn plain(name: Seq<char>) -> VariantModel {
    VariantModel { name, fields: VariantFieldsModel::Unit }
}

/// What a variant's fields say.
pub open spec fn variant_fields_model(fields: VariantFields) -> VariantFieldsModel {
    match fields {
        VariantFields::Unit => VariantFieldsModel::Unit,
        VariantFields::Named(fields) => VariantFieldsModel::Named(field_models(fields@)),
        VariantFields::Unnamed(types) => VariantFieldsModel::Unnamed(type_models(types@)),
    }
}

/// What a variant says.
pub open spec fn variant_model(variant: VariantSchema) -> VariantModel {
    VariantModel { name: variant.name@, fields: variant_fields_model(variant.fields) }
}

/// What some variants say, in order.
pub open spec fn variant_models(variants: Seq<VariantSchema>) -> Seq<VariantModel> {
    variants.map_values(|variant: VariantSchema| variant_model(variant))
}

/// What the kind of a named type says.
pub enum KindModel {
    Struct(Seq<FieldModel>),
    Enum(Seq<VariantModel>),
}

/// What a definition says.
pub struct DefinitionModel {
    pub name: Seq<char>,
    pub kind: KindModel,
}

/// What a definition says.
pub open spec fn definition_model(definition: TypeDefinition) -> DefinitionModel {
    DefinitionModel {
        name: definition.name@,
        kind: match definition.kind {
            TypeKind::Struct(fields) => KindModel::Struct(field_models(fields@)),
            TypeKind::Enum(variants) => KindModel::Enum(variant_models(variants@)),
        },
    }
}

/// What some definitions say, in order.
pub open spec fn definition_models(definitions: Seq<TypeDefinition>) -> Seq<DefinitionModel> {
    definitions.map_values(|definition: TypeDefinition| definition_model(definition))
}

/// What a method's schema says.
pub struct MethodSchemaModel {
    pub name: Seq<char>,
    pub arguments: Seq<FieldModel>,
    pub response: TypeModel,
    pub is_async: bool,
}

/// What a method's schema says.
pub open spec fn method_schema_model(method: MethodSchema) -> MethodSchemaModel {
    MethodSchemaModel {
        name: method.name@,
        arguments: argument_models(method.arguments@),
        response: type_model(method.response),
        is_async: method.is_async,
    }
}

/// What some methods' schemas say, in order.
pub open spec fn method_schema_models(methods: Seq<MethodSchema>) -> Seq<MethodSchemaModel> {
    methods.map_values(|method: MethodSchema| method_schema_model(method))
}

/// What an interface's schema says.
#[verifier::ext_equal]
pub struct SchemaModel {
    pub name: Seq<char>,
    pub methods: Seq<MethodSchemaModel>,
    pub events: Seq<FieldModel>,
    pub types: Seq<DefinitionModel>,
}

/// What an interface's schema says.
pub open spec fn schema_model(schema: Schema) -> SchemaModel {
    SchemaModel {
        name: schema.name@,
        methods: method_schema_models(schema.methods@),
        events: event_models(schema.events@),
        types: definition_models(schema.types@),
    }
}

/// Whether some definition has this name.
pub open spec fn defines(types: Seq<DefinitionModel>, name: Seq<char>) -> bool {
    exists|i: int| 0 <= i < types.len() && (#[trigger] types[i]).name == name
}

/// Whether no two definitions have the same name.
pub open spec fn names_distinct(types: Seq<DefinitionModel>) -> bool {
    forall|i: int, j: int|
        0 <= i < j < types.len() ==> (#[trigger] types[i]).name != (#[trigger] types[j]).name
}

/// The definitions with one more, unless its name is defined already.
pub open spec fn with_definition(
    types: Seq<DefinitionModel>,
    definition: DefinitionModel,
) -> Seq<DefinitionModel> {
    if defines(types, definition.name) {
        types
    } else {
        types.push(definition)
    }
}

/// Add a definition unless one with the same name is already present. Tells whether it
/// was added.
pub fn collect_definition(types: &mut Vec<TypeDefinition>, definition: TypeDefinition) -> (added:
    bool)
    ensures
        added == !defines(definition_models(old(types)@), definition.name@),
        definition_models(final(types)@) == with_definition(
            definition_models(old(types)@),
            definition_model(definition),
        ),
{
    let ghost models = definition_models(types@);
    let mut i: usize = 0;
    while i < types.len()
        invariant
            i <= types.len(),
            *types == *old(types),
            models == definition_models(types@),
            forall|j: int| 0 <= j < i ==> (#[trigger] models[j]).name != definition.name@,
        decreases types.len() - i,
    {
        assert(models[i as int].name == types@[i as int].name@);
        if same_text(types[i].name, definition.name) {
            return false;
        }
        i += 1;
    }
    types.push(definition);
    assert(definition_models(types@) =~= models.push(definition_model(definition)));
    true
}

/// Whether every named type a shape mentions is among some definitions.
pub open spec fn is_covered(types: Seq<DefinitionModel>, ty: TypeModel) -> bool
    decreases ty,
{
    match ty {
        TypeModel::Named(name) => defines(types, name),
        TypeModel::Optional(inner) => is_covered(types, *inner),
        TypeModel::List(inner) => is_covered(types, *inner),
        TypeModel::Dictionary(inner) => is_covered(types, *inner),
        TypeModel::Tuple(parts) => forall|i: int|
            0 <= i < parts.len() ==> is_covered(types, #[trigger] parts[i]),
        _ => true,
    }
}

/// Whether every named type some fields mention is among some definitions.
pub open spec fn fields_covered(types: Seq<DefinitionModel>, fields: Seq<FieldModel>) -> bool {
    forall|i: int| 0 <= i < fields.len() ==> is_covered(types, (#[trigger] fields[i]).ty)
}

/// Whether every named type a variant mentions is among some definitions.
pub open spec fn variant_covered(types: Seq<DefinitionModel>, variant: VariantModel) -> bool {
    match variant.fields {
        VariantFieldsModel::Unit => true,
        VariantFieldsModel::Named(fields) => fields_covered(types, fields),
        VariantFieldsModel::Unnamed(parts) => forall|i: int|
            0 <= i < parts.len() ==> is_covered(types, #[trigger] parts[i]),
    }
}

/// Whether every named type a definition mentions is among some definitions.
pub open spec fn definition_covered(
    types: Seq<DefinitionModel>,
    definition: DefinitionModel,
) -> bool {
    match definition.kind {
        KindModel::Struct(fields) => fields_covered(types, fields),
        KindModel::Enum(variants) => forall|i: int|
            0 <= i < variants.len() ==> variant_covered(types, #[trigger] variants[i]),
    }
}

/// Whether every named type the definitions from this one on mention is among them.
pub open spec fn covered_from(types: Seq<DefinitionModel>, from: int) -> bool {
    forall|i: int| from <= i < types.len() ==> definition_covered(types, #[trigger] types[i])
}

/// Whether every named type that an interface's methods and events mention, and that the
/// definitions of those mention in turn, is listed.
pub open spec fn schema_covered(schema: SchemaModel) -> bool {
    &&& forall|i: int|
        0 <= i < schema.methods.len() ==> fields_covered(
            schema.types,
            (#[trigger] schema.methods[i]).arguments,
        ) && is_covered(schema.types, schema.methods[i].response)
    &&& fields_covered(schema.types, schema.events)
    &&& covered_from(schema.types, 0)
}

/// What is covered stays covered by more definitions.
pub proof fn lemma_covered_grows(
    types: Seq<DefinitionModel>,
    more: Seq<DefinitionModel>,
    ty: TypeModel,
)
    requires
        types.is_prefix_of(more),
        is_covered(types, ty),
    ensures
        is_covered(more, ty),
    decreases ty,
{
    match ty {
        TypeModel::Named(name) => {
            let i = choose|i: int| 0 <= i < types.len() && (#[trigger] types[i]).name == name;
            assert(more.subrange(0, types.len() as int)[i] == more[i]);
            assert(more[i].name == name);
        },
        TypeModel::Optional(inner) => lemma_covered_grows(types, more, *inner),
        TypeModel::List(inner) => lemma_covered_grows(types, more, *inner),
        TypeModel::Dictionary(inner) => lemma_covered_grows(types, more, *inner),
        TypeModel::Tuple(parts) => {
            assert forall|i: int| 0 <= i < parts.len() implies is_covered(
                more,
                #[trigger] parts[i],
            ) by {
                lemma_covered_grows(types, more, parts[i]);
            }
        },
        _ => {},
    }
}

proof fn lemma_fields_covered_grow(
    types: Seq<DefinitionModel>,
    more: Seq<DefinitionModel>,
    fields: Seq<FieldModel>,
)
    requires
        types.is_prefix_of(more),
        fields_covered(types, fields),
    ensures
        fields_covered(more, fields),
{
    assert forall|i: int| 0 <= i < fields.len() implies is_covered(
        more,
        (#[trigger] fields[i]).ty,
    ) by {
        lemma_covered_grows(types, more, fields[i].ty);
    }
}

proof fn lemma_definition_covered_grows(
    types: Seq<DefinitionModel>,
    more: Seq<DefinitionModel>,
    definition: DefinitionModel,
)
    requires
        types.is_prefix_of(more),
        definition_covered(types, definition),
    ensures
        definition_covered(more, definition),
{
    match definition.kind {
        KindModel::Struct(fields) => lemma_fields_covered_grow(types, more, fields),
        KindModel::Enum(variants) => {
            assert forall|i: int| 0 <= i < variants.len() implies variant_covered(
                more,
                #[trigger] variants[i],
            ) by {
                assert(variant_covered(types, variants[i]));
                match variants[i].fields {
                    VariantFieldsModel::Unit => {},
                    VariantFieldsModel::Named(fields) => lemma_fields_covered_grow(
                        types,
                        more,
                        fields,
                    ),
                    VariantFieldsModel::Unnamed(parts) => {
                        assert forall|j: int| 0 <= j < parts.len() implies is_covered(
                            more,
                            #[trigger] parts[j],
                        ) by {
                            lemma_covered_grows(types, more, parts[j]);
                        }
                    },
                }
            }
        },
    }
}

/// Where the definitions so far are covered, and those added to them are, all are.
pub proof fn lemma_coverage_chains(
    types: Seq<DefinitionModel>,
    more: Seq<DefinitionModel>,
    from: int,
)
    requires
        types.is_prefix_of(more),
        0 <= from,
        covered_from(types, from),
        covered_from(more, types.len() as int),
    ensures
        covered_from(more, from),
{
    assert forall|i: int| from <= i < more.len() implies definition_covered(
        more,
        #[trigger] more[i],
    ) by {
        if i < types.len() {
            assert(more.subrange(0, types.len() as int)[i] == more[i]);
            assert(definition_covered(types, types[i]));
            lemma_definition_covered_grows(types, more, types[i]);
        }
    }
}

/// A type that can appear in a payload and describe its own shape.
pub trait Describe {
    /// The shape of this type.
    spec fn described() -> TypeModel;

    /// `types` with the named definitions of this type and its components, each once.
    spec fn collected(types: Seq<DefinitionModel>) -> Seq<DefinitionModel>;

    /// Collecting only adds, and never a name twice.
    proof fn collecting_adds_each_once(types: Seq<DefinitionModel>)
        ensures
            types.is_prefix_of(Self::collected(types)),
            names_distinct(types) ==> names_distinct(Self::collected(types)),
    ;

    /// Every named type that this one mentions is collected, and every named type that those
    /// mention in turn.
    proof fn collecting_covers_every_mention(types: Seq<DefinitionModel>)
        ensures
            is_covered(Self::collected(types), Self::described()),
            covered_from(Self::collected(types), types.len() as int),
    ;

    fn describe() -> (schema: TypeSchema)
        ensures
            type_model(schema) == Self::described(),
    ;

    /// Add this type's named definitions (its own, if any, then its components') to
    /// `types`, each once.
    fn collect(types: &mut Vec<TypeDefinition>)
        ensures
            definition_models(final(types)@) == Self::collected(definition_models(old(types)@)),
    ;
}

/// What comes before, and what is only added to it, comes before what is added to that.
pub proof fn lemma_additions_chain(
    first: Seq<DefinitionModel>,
    second: Seq<DefinitionModel>,
    third: Seq<DefinitionModel>,
)
    requires
        first.is_prefix_of(second),
        second.is_prefix_of(third),
    ensures
        first.is_prefix_of(third),
{
    assert(first =~= third.subrange(0, first.len() as int)) by {
        assert forall|i: int| 0 <= i < first.len() implies first[i] == third[i] by {
            assert(first[i] == second.subrange(0, first.len() as int)[i]);
            assert(second[i] == third.subrange(0, second.len() as int)[i]);
        }
    }
}

/// Collecting two types, one after the other, only adds, and covers them all.
pub proof fn lemma_two_are_collected<A: Describe, B: Describe>(types: Seq<DefinitionModel>)
    ensures
        ({
            let all = B::collected(A::collected(types));
            &&& types.is_prefix_of(all)
            &&& is_covered(all, A::described())
            &&& is_covered(all, B::described())
            &&& covered_from(all, types.len() as int)
        }),
{
    let first = A::collected(types);
    let all = B::collected(first);
    A::collecting_adds_each_once(types);
    A::collecting_covers_every_mention(types);
    B::collecting_adds_each_once(first);
    B::collecting_covers_every_mention(first);
    lemma_additions_chain(types, first, all);
    lemma_coverage_chains(first, all, types.len() as int);
    lemma_covered_grows(first, all, A::described());
}

/// Collecting three types, one after the other, only adds, and covers them all.
pub proof fn lemma_three_are_collected<A: Describe, B: Describe, C: Describe>(
    types: Seq<DefinitionModel>,
)
    ensures
        ({
            let all = C::collected(B::collected(A::collected(types)));
            &&& types.is_prefix_of(all)
            &&& is_covered(all, A::described())
            &&& is_covered(all, B::described())
            &&& is_covered(all, C::described())
            &&& covered_from(all, types.len() as int)
        }),
{
    let most = B::collected(A::collected(types));
    let all = C::collected(most);
    lemma_two_are_collected::<A, B>(types);
    C::collecting_adds_each_once(most);
    C::collecting_covers_every_mention(most);
    lemma_additions_chain(types, most, all);
    lemma_coverage_chains(most, all, types.len() as int);
    lemma_covered_grows(most, all, A::described());
    lemma_covered_grows(most, all, B::described());
}

/// Collecting four types, one after the other, only adds, and covers them all.
pub proof fn lemma_four_are_collected<A: Describe, B: Describe, C: Describe, D: Describe>(
    types: Seq<DefinitionModel>,
)
    ensures
        ({
            let all = D::collected(C::collected(B::collected(A::collected(types))));
            &&& types.is_prefix_of(all)
            &&& is_covered(all, A::described())
            &&& is_covered(all, B::described())
            &&& is_covered(all, C::described())
            &&& is_covered(all, D::described())
            &&& covered_from(all, types.len() as int)
        }),
{
    let most = C::collected(B::collected(A::collected(types)));
    let all = D::collected(most);
    lemma_three_are_collected::<A, B, C>(types);
    D::collecting_adds_each_once(most);
    D::collecting_covers_every_mention(most);
    lemma_additions_chain(types, most, all);
    lemma_coverage_chains(most, all, types.len() as int);
    lemma_covered_grows(most, all, A::described());
    lemma_covered_grows(most, all, B::described());
    lemma_covered_grows(most, all, C::described());
}

/// An interface: a set of methods and events, known by name.
pub trait Interface {
    /// The name of the interface.
    spec fn named() -> Seq<char>;

    /// The name of the interface.
    fn name() -> (name: &'static str)
        ensures
            name@ == Self::named(),
    ;

    /// Its methods, its events, and the named types they mention.
    spec fn interface() -> SchemaModel;

    /// Every named type is listed once.
    proof fn types_are_listed_once()
        ensures
            names_distinct(Self::interface().types),
    ;

    /// Every named type that is mentioned is listed.
    proof fn every_mention_is_listed()
        ensures
            schema_covered(Self::interface()),
    ;

    fn schema() -> (schema: Schema)
        ensures
            schema_model(schema) == Self::interface(),
    ;
}

/// A capability to an object with interface `S`: the object's id.
#[derive(Debug)]
pub struct Ref<S> {
    pub id: u64,
    pub interface: PhantomData<S>,
}

impl Describe for () {
    open spec fn described() -> TypeModel {
        TypeModel::Unit
    }

    open spec fn collected(types: Seq<DefinitionModel>) -> Seq<DefinitionModel> {
        types
    }

    proof fn collecting_adds_each_once(types: Seq<DefinitionModel>) {
    }

    proof fn collecting_covers_every_mention(types: Seq<DefinitionModel>) {
    }

    fn describe() -> (schema: TypeSchema) {
        TypeSchema::Unit
    }

    fn collect(types: &mut Vec<TypeDefinition>) {
    }
}

impl Describe for bool {
    open spec fn described() -> TypeModel {
        TypeModel::Bool
    }

    open spec fn collected(types: Seq<DefinitionModel>) -> Seq<DefinitionModel> {
        types
    }

    proof fn collecting_adds_each_once(types: Seq<DefinitionModel>) {
    }

    proof fn collecting_covers_every_mention(types: Seq<DefinitionModel>) {
    }

    fn describe() -> (schema: TypeSchema) {
        TypeSchema::Bool
    }

    fn collect(types: &mut Vec<TypeDefinition>) {
    }
}

impl Describe for u8 {
    open spec fn described() -> TypeModel {
        TypeModel::Integer
    }

    open spec fn collected(types: Seq<DefinitionModel>) -> Seq<DefinitionModel> {
        types
    }

    proof fn collecting_adds_each_once(types: Seq<DefinitionModel>) {
    }

    proof fn collecting_covers_every_mention(types: Seq<DefinitionModel>) {
    }

    fn describe() -> (schema: TypeSchema) {
        TypeSchema::Integer
    }

    fn collect(types: &mut Vec<TypeDefinition>) {
    }
}

impl Describe for u16 {
    open spec fn described() -> TypeModel {
        TypeModel::Integer
    }

    open spec fn collected(types: Seq<DefinitionModel>) -> Seq<DefinitionModel> {
        types
    }

    proof fn collecting_adds_each_once(types: Seq<DefinitionModel>) {
    }

    proof fn collecting_covers_every_mention(types: Seq<DefinitionModel>) {
    }

    fn describe() -> (schema: TypeSchema) {
        TypeSchema::Integer
    }

    fn collect(types: &mut Vec<TypeDefinition>) {
    }
}

impl Describe for u32 {
    open spec fn described() -> TypeModel {
        TypeModel::Integer
    }

    open spec fn collected(types: Seq<DefinitionModel>) -> Seq<DefinitionModel> {
        types
    }

    proof fn collecting_adds_each_once(types: Seq<DefinitionModel>) {
    }

    proof fn collecting_covers_every_mention(types: Seq<DefinitionModel>) {
    }

    fn describe() -> (schema: TypeSchema) {
        TypeSchema::Integer
    }

    fn collect(types: &mut Vec<TypeDefinition>) {
    }
}

impl Describe for u64 {
    open spec fn described() -> TypeModel {
        TypeModel::Integer
    }

    open spec fn collected(types: Seq<DefinitionModel>) -> Seq<DefinitionModel> {
        types
    }

    proof fn collecting_adds_each_once(types: Seq<DefinitionModel>) {
    }

    proof fn collecting_covers_every_mention(types: Seq<DefinitionModel>) {
    }

    fn describe() -> (schema: TypeSchema) {
        TypeSchema::Integer
    }

    fn collect(types: &mut Vec<TypeDefinition>) {
    }
}

impl Describe for usize {
    open spec fn described() -> TypeModel {
        TypeModel::Integer
    }

    open spec fn collected(types: Seq<DefinitionModel>) -> Seq<DefinitionModel> {
        types
    }

    proof fn collecting_adds_each_once(types: Seq<DefinitionModel>) {
    }

    proof fn collecting_covers_every_mention(types: Seq<DefinitionModel>) {
    }

    fn describe() -> (schema: TypeSchema) {
        TypeSchema::Integer
    }

    fn collect(types: &mut Vec<TypeDefinition>) {
    }
}

impl Describe for i8 {
    open spec fn described() -> TypeModel {
        TypeModel::Integer
    }

    open spec fn collected(types: Seq<DefinitionModel>) -> Seq<DefinitionModel> {
        types
    }

    proof fn collecting_adds_each_once(types: Seq<DefinitionModel>) {
    }

    proof fn collecting_covers_every_mention(types: Seq<DefinitionModel>) {
    }

    fn describe() -> (schema: TypeSchema) {
        TypeSchema::Integer
    }

    fn collect(types: &mut Vec<TypeDefinition>) {
    }
}

impl Describe for i16 {
    open spec fn described() -> TypeModel {
        TypeModel::Integer
    }

    open spec fn collected(types: Seq<DefinitionModel>) -> Seq<DefinitionModel> {
        types
    }

    proof fn collecting_adds_each_once(types: Seq<DefinitionModel>) {
    }

    proof fn collecting_covers_every_mention(types: Seq<DefinitionModel>) {
    }

    fn describe() -> (schema: TypeSchema) {
        TypeSchema::Integer
    }

    fn collect(types: &mut Vec<TypeDefinition>) {
    }
}

impl Describe for i32 {
    open spec fn described() -> TypeModel {
        TypeModel::Integer
    }

    open spec fn collected(types: Seq<DefinitionModel>) -> Seq<DefinitionModel> {
        types
    }

    proof fn collecting_adds_each_once(types: Seq<DefinitionModel>) {
    }

    proof fn collecting_covers_every_mention(types: Seq<DefinitionModel>) {
    }

    fn describe() -> (schema: TypeSchema) {
        TypeSchema::Integer
    }

    fn collect(types: &mut Vec<TypeDefinition>) {
    }
}

impl Describe for i64 {
    open spec fn described() -> TypeModel {
        TypeModel::Integer
    }

    open spec fn collected(types: Seq<DefinitionModel>) -> Seq<DefinitionModel> {
        types
    }

    proof fn collecting_adds_each_once(types: Seq<DefinitionModel>) {
    }

    proof fn collecting_covers_every_mention(types: Seq<DefinitionModel>) {
    }

    fn describe() -> (schema: TypeSchema) {
        TypeSchema::Integer
    }

    fn collect(types: &mut Vec<TypeDefinition>) {
    }
}

impl Describe for isize {
    open spec fn described() -> TypeModel {
        TypeModel::Integer
    }

    open spec fn collected(types: Seq<DefinitionModel>) -> Seq<DefinitionModel> {
        types
    }

    proof fn collecting_adds_each_once(types: Seq<DefinitionModel>) {
    }

    proof fn collecting_covers_every_mention(types: Seq<DefinitionModel>) {
    }

    fn describe() -> (schema: TypeSchema) {
        TypeSchema::Integer
    }

    fn collect(types: &mut Vec<TypeDefinition>) {
    }
}

impl Describe for Scalar {
    open spec fn described() -> TypeModel {
        TypeModel::Float
    }

    open spec fn collected(types: Seq<DefinitionModel>) -> Seq<DefinitionModel> {
        types
    }

    proof fn collecting_adds_each_once(types: Seq<DefinitionModel>) {
    }

    proof fn collecting_covers_every_mention(types: Seq<DefinitionModel>) {
    }

    fn describe() -> (schema: TypeSchema) {
        TypeSchema::Float
    }

    fn collect(types: &mut Vec<TypeDefinition>) {
    }
}

impl Describe for String {
    open spec fn described() -> TypeModel {
        TypeModel::Text
    }

    open spec fn collected(types: Seq<DefinitionModel>) -> Seq<DefinitionModel> {
        types
    }

    proof fn collecting_adds_each_once(types: Seq<DefinitionModel>) {
    }

    proof fn collecting_covers_every_mention(types: Seq<DefinitionModel>) {
    }

    fn describe() -> (schema: TypeSchema) {
        TypeSchema::String
    }

    fn collect(types: &mut Vec<TypeDefinition>) {
    }
}

impl Describe for char {
    open spec fn described() -> TypeModel {
        TypeModel::Text
    }

    open spec fn collected(types: Seq<DefinitionModel>) -> Seq<DefinitionModel> {
        types
    }

    proof fn collecting_adds_each_once(types: Seq<DefinitionModel>) {
    }

    proof fn collecting_covers_every_mention(types: Seq<DefinitionModel>) {
    }

    fn describe() -> (schema: TypeSchema) {
        TypeSchema::String
    }

    fn collect(types: &mut Vec<TypeDefinition>) {
    }
}

impl<T: Describe> Describe for Option<T> {
    open spec fn described() -> TypeModel {
        TypeModel::Optional(Box::new(T::described()))
    }

    open spec fn collected(types: Seq<DefinitionModel>) -> Seq<DefinitionModel> {
        T::collected(types)
    }

    proof fn collecting_adds_each_once(types: Seq<DefinitionModel>) {
        T::collecting_adds_each_once(types);
    }

    proof fn collecting_covers_every_mention(types: Seq<DefinitionModel>) {
        T::collecting_covers_every_mention(types);
    }

    fn describe() -> (schema: TypeSchema) {
        TypeSchema::Option(Box::new(T::describe()))
    }

    fn collect(types: &mut Vec<TypeDefinition>) {
        T::collect(types);
    }
}

impl<T: Describe> Describe for Vec<T> {
    open spec fn described() -> TypeModel {
        TypeModel::List(Box::new(T::described()))
    }

    open spec fn collected(types: Seq<DefinitionModel>) -> Seq<DefinitionModel> {
        T::collected(types)
    }

    proof fn collecting_adds_each_once(types: Seq<DefinitionModel>) {
        T::collecting_adds_each_once(types);
    }

    proof fn collecting_covers_every_mention(types: Seq<DefinitionModel>) {
        T::collecting_covers_every_mention(types);
    }

    fn describe() -> (schema: TypeSchema) {
        TypeSchema::List(Box::new(T::describe()))
    }

    fn collect(types: &mut Vec<TypeDefinition>) {
        T::collect(types);
    }
}

impl<V: Describe, S> Describe for HashMap<String, V, S> {
    open spec fn described() -> TypeModel {
        TypeModel::Dictionary(Box::new(V::described()))
    }

    open spec fn collected(types: Seq<DefinitionModel>) -> Seq<DefinitionModel> {
        V::collected(types)
    }

    proof fn collecting_adds_each_once(types: Seq<DefinitionModel>) {
        V::collecting_adds_each_once(types);
    }

    proof fn collecting_covers_every_mention(types: Seq<DefinitionModel>) {
        V::collecting_covers_every_mention(types);
    }

    fn describe() -> (schema: TypeSchema) {
        TypeSchema::Dictionary(Box::new(V::describe()))
    }

    fn collect(types: &mut Vec<TypeDefinition>) {
        V::collect(types);
    }
}

impl<S: Interface> Describe for Ref<S> {
    open spec fn described() -> TypeModel {
        TypeModel::Ref(S::named())
    }

    open spec fn collected(types: Seq<DefinitionModel>) -> Seq<DefinitionModel> {
        types
    }

    proof fn collecting_adds_each_once(types: Seq<DefinitionModel>) {
    }

    proof fn collecting_covers_every_mention(types: Seq<DefinitionModel>) {
    }

    fn describe() -> (schema: TypeSchema) {
        TypeSchema::Ref(S::name())
    }

    fn collect(types: &mut Vec<TypeDefinition>) {
    }
}

impl<A: Describe> Describe for (A,) {
    open spec fn described() -> TypeModel {
        TypeModel::Tuple(seq![A::described()])
    }

    open spec fn collected(types: Seq<DefinitionModel>) -> Seq<DefinitionModel> {
        A::collected(types)
    }

    proof fn collecting_adds_each_once(types: Seq<DefinitionModel>) {
        A::collecting_adds_each_once(types);
    }

    proof fn collecting_covers_every_mention(types: Seq<DefinitionModel>) {
        let from = types.len() as int;
        A::collecting_adds_each_once(types);
        A::collecting_covers_every_mention(types);
        let covered0 = A::collected(types);
        lemma_coverage_chains(types, covered0, from);
    }

    fn describe() -> (schema: TypeSchema) {
        let parts: Vec<TypeSchema> = vec![A::describe()];
        proof {
            lemma_type_models(parts@);
            assert(type_models(parts@) =~= seq![A::described()]);
        }
        TypeSchema::Tuple(parts)
    }

    fn collect(types: &mut Vec<TypeDefinition>) {
        A::collect(types);
    }
}

impl<A: Describe, B: Describe> Describe for (A, B) {
    open spec fn described() -> TypeModel {
        TypeModel::Tuple(seq![A::described(), B::described()])
    }

    open spec fn collected(types: Seq<DefinitionModel>) -> Seq<DefinitionModel> {
        B::collected(A::collected(types))
    }

    proof fn collecting_adds_each_once(types: Seq<DefinitionModel>) {
        A::collecting_adds_each_once(types);
        B::collecting_adds_each_once(A::collected(types));
    }

    proof fn collecting_covers_every_mention(types: Seq<DefinitionModel>) {
        let from = types.len() as int;
        A::collecting_adds_each_once(types);
        A::collecting_covers_every_mention(types);
        let covered0 = A::collected(types);
        lemma_coverage_chains(types, covered0, from);
        B::collecting_adds_each_once(covered0);
        B::collecting_covers_every_mention(covered0);
        let covered1 = B::collected(covered0);
        lemma_coverage_chains(covered0, covered1, from);
        lemma_covered_grows(covered0, covered1, A::described());
    }

    fn describe() -> (schema: TypeSchema) {
        let parts: Vec<TypeSchema> = vec![A::describe(), B::describe()];
        proof {
            lemma_type_models(parts@);
            assert(type_models(parts@) =~= seq![A::described(), B::described()]);
        }
        TypeSchema::Tuple(parts)
    }

    fn collect(types: &mut Vec<TypeDefinition>) {
        A::collect(types);
        B::collect(types);
    }
}

impl<A: Describe, B: Describe, C: Describe> Describe for (A, B, C) {
    open spec fn described() -> TypeModel {
        TypeModel::Tuple(seq![A::described(), B::described(), C::described()])
    }

    open spec fn collected(types: Seq<DefinitionModel>) -> Seq<DefinitionModel> {
        C::collected(B::collected(A::collected(types)))
    }

    proof fn collecting_adds_each_once(types: Seq<DefinitionModel>) {
        A::collecting_adds_each_once(types);
        B::collecting_adds_each_once(A::collected(types));
        C::collecting_adds_each_once(B::collected(A::collected(types)));
    }

    proof fn collecting_covers_every_mention(types: Seq<DefinitionModel>) {
        let from = types.len() as int;
        A::collecting_adds_each_once(types);
        A::collecting_covers_every_mention(types);
        let covered0 = A::collected(types);
        lemma_coverage_chains(types, covered0, from);
        B::collecting_adds_each_once(covered0);
        B::collecting_covers_every_mention(covered0);
        let covered1 = B::collected(covered0);
        lemma_coverage_chains(covered0, covered1, from);
        lemma_covered_grows(covered0, covered1, A::described());
        C::collecting_adds_each_once(covered1);
        C::collecting_covers_every_mention(covered1);
        let covered2 = C::collected(covered1);
        lemma_coverage_chains(covered1, covered2, from);
        lemma_covered_grows(covered1, covered2, A::described());
        lemma_covered_grows(covered1, covered2, B::described());
    }

    fn describe() -> (schema: TypeSchema) {
        let parts: Vec<TypeSchema> = vec![A::describe(), B::describe(), C::describe()];
        proof {
            lemma_type_models(parts@);
            assert(type_models(parts@) =~= seq![A::described(), B::described(), C::described()]);
        }
        TypeSchema::Tuple(parts)
    }

    fn collect(types: &mut Vec<TypeDefinition>) {
        A::collect(types);
        B::collect(types);
        C::collect(types);
    }
}

impl<A: Describe, B: Describe, C: Describe, D: Describe> Describe for (A, B, C, D) {
    open spec fn described() -> TypeModel {
        TypeModel::Tuple(seq![A::described(), B::described(), C::described(), D::described()])
    }

    open spec fn collected(types: Seq<DefinitionModel>) -> Seq<DefinitionModel> {
        D::collected(C::collected(B::collected(A::collected(types))))
    }

    proof fn collecting_adds_each_once(types: Seq<DefinitionModel>) {
        A::collecting_adds_each_once(types);
        B::collecting_adds_each_once(A::collected(types));
        C::collecting_adds_each_once(B::collected(A::collected(types)));
        D::collecting_adds_each_once(C::collected(B::collected(A::collected(types))));
    }

    proof fn collecting_covers_every_mention(types: Seq<DefinitionModel>) {
        let from = types.len() as int;
        A::collecting_adds_each_once(types);
        A::collecting_covers_every_mention(types);
        let covered0 = A::collected(types);
        lemma_coverage_chains(types, covered0, from);
        B::collecting_adds_each_once(covered0);
        B::collecting_covers_every_mention(covered0);
        let covered1 = B::collected(covered0);
        lemma_coverage_chains(covered0, covered1, from);
        lemma_covered_grows(covered0, covered1, A::described());
        C::collecting_adds_each_once(covered1);
        C::collecting_covers_every_mention(covered1);
        let covered2 = C::collected(covered1);
        lemma_coverage_chains(covered1, covered2, from);
        lemma_covered_grows(covered1, covered2, A::described());
        lemma_covered_grows(covered1, covered2, B::described());
        D::collecting_adds_each_once(covered2);
        D::collecting_covers_every_mention(covered2);
        let covered3 = D::collected(covered2);
        lemma_coverage_chains(covered2, covered3, from);
        lemma_covered_grows(covered2, covered3, A::described());
        lemma_covered_grows(covered2, covered3, B::described());
        lemma_covered_grows(covered2, covered3, C::described());
    }

    fn describe() -> (schema: TypeSchema) {
        let parts: Vec<TypeSchema> = vec![A::describe(), B::describe(), C::describe(), D::describe()];
        proof {
            lemma_type_models(parts@);
            assert(type_models(parts@) =~= seq![A::described(), B::described(), C::described(), D::described()]);
        }
        TypeSchema::Tuple(parts)
    }

    fn collect(types: &mut Vec<TypeDefinition>) {
        A::collect(types);
        B::collect(types);
        C::collect(types);
        D::collect(types);
    }
}

/// Collecting one definition after another keeps every name defined once.
pub proof fn definitions_stay_distinct(types: Seq<DefinitionModel>, definition: DefinitionModel)
    requires
        names_distinct(types),
    ensures
        names_distinct(with_definition(types, definition)),
        types.is_prefix_of(with_definition(types, definition)),
        defines(with_definition(types, definition), definition.name),
{
    let after = with_definition(types, definition);
    if !defines(types, definition.name) {
        assert(after[types.len() as int].name == definition.name);
    }
}

/// Collecting the same definition again changes nothing.
pub proof fn collecting_twice_is_collecting_once(
    types: Seq<DefinitionModel>,
    definition: DefinitionModel,
)
    ensures
        with_definition(with_definition(types, definition), definition) == with_definition(
            types,
            definition,
        ),
{
    let once = with_definition(types, definition);
    if !defines(types, definition.name) {
        assert(once[types.len() as int].name == definition.name);
    }
}

/// A shape is told as it is: each plain shape as itself, what holds another shape with the
/// shape it holds, and a ref or a named type by its name.
pub proof fn shapes_hold_what_they_say(
    inner: Box<TypeSchema>,
    parts: Vec<TypeSchema>,
    name: &'static str,
    nth: int,
)
    ensures
        type_model(TypeSchema::Unit) is Unit,
        type_model(TypeSchema::Bool) is Bool,
        type_model(TypeSchema::Integer) is Integer,
        type_model(TypeSchema::Float) is Float,
        type_model(TypeSchema::String) is Text,
        type_model(TypeSchema::Option(inner)) matches TypeModel::Optional(held) && *held
            == type_model(*inner),
        type_model(TypeSchema::List(inner)) matches TypeModel::List(held) && *held == type_model(
            *inner,
        ),
        type_model(TypeSchema::Dictionary(inner)) matches TypeModel::Dictionary(held) && *held
            == type_model(*inner),
        type_model(TypeSchema::Tuple(parts)) matches TypeModel::Tuple(held) && held.len()
            == parts@.len() && (0 <= nth < held.len() ==> held[nth] == type_model(parts@[nth])),
        type_model(TypeSchema::Ref(name)) == TypeModel::Ref(name@),
        type_model(TypeSchema::Named(name)) == TypeModel::Named(name@),
{
    lemma_type_models(parts@);
}

/// What a value can be is described as it travels: nothing as unit, truth values as such, any
/// integer as an integer, a scalar as a float, characters and texts as text; an optional value,
/// a list and a map with the shape of what they hold, and a ref by its interface's name.
pub proof fn values_are_described_as_they_travel<T: Describe, S: Interface>()
    ensures
        <()>::described() is Unit,
        bool::described() is Bool,
        u8::described() is Integer,
        u16::described() is Integer,
        u32::described() is Integer,
        u64::described() is Integer,
        usize::described() is Integer,
        i8::described() is Integer,
        i16::described() is Integer,
        i32::described() is Integer,
        i64::described() is Integer,
        isize::described() is Integer,
        Scalar::described() is Float,
        String::described() is Text,
        char::described() is Text,
        Option::<T>::described() matches TypeModel::Optional(held) && *held == T::described(),
        Vec::<T>::described() matches TypeModel::List(held) && *held == T::described(),
        Ref::<S>::described() == TypeModel::Ref(S::named()),
{
}

/// Tuples are described part by part, in order.
pub proof fn tuples_are_described_in_order<A: Describe, B: Describe, C: Describe, D: Describe>()
    ensures
        <(A,)>::described() == TypeModel::Tuple(seq![A::described()]),
        <(A, B)>::described() == TypeModel::Tuple(seq![A::described(), B::described()]),
        <(A, B, C)>::described() == TypeModel::Tuple(
            seq![A::described(), B::described(), C::described()],
        ),
        <(A, B, C, D)>::described() == TypeModel::Tuple(
            seq![A::described(), B::described(), C::described(), D::described()],
        ),
{
}

/// A field, an argument and an event are told by their own name and shape, in order.
pub proof fn names_go_with_their_shapes(
    fields: Seq<FieldSchema>,
    arguments: Seq<ArgumentSchema>,
    events: Seq<EventSchema>,
    nth: int,
)
    ensures
        field_models(fields).len() == fields.len(),
        0 <= nth < fields.len() ==> field_models(fields)[nth].name == fields[nth].name@
            && field_models(fields)[nth].ty == type_model(fields[nth].ty),
        argument_models(arguments).len() == arguments.len(),
        0 <= nth < arguments.len() ==> argument_models(arguments)[nth].name
            == arguments[nth].name@ && argument_models(arguments)[nth].ty == type_model(
            arguments[nth].ty,
        ),
        event_models(events).len() == events.len(),
        0 <= nth < events.len() ==> event_models(events)[nth].name == events[nth].name@
            && event_models(events)[nth].ty == type_model(events[nth].ty),
{
}

/// A definition, a variant, a method and an interface are told part by part: a struct by its
/// fields and an enum by its variants, a variant by how it holds its fields, a method by its
/// arguments, its response and whether it answers later.
pub proof fn definitions_hold_what_they_say(
    definition: TypeDefinition,
    variant: VariantSchema,
    method: MethodSchema,
    schema: Schema,
)
    ensures
        definition_model(definition).name == definition.name@,
        match definition.kind {
            TypeKind::Struct(fields) => definition_model(definition).kind == KindModel::Struct(
                field_models(fields@),
            ),
            TypeKind::Enum(variants) => definition_model(definition).kind == KindModel::Enum(
                variant_models(variants@),
            ),
        },
        variant_model(variant).name == variant.name@,
        match variant.fields {
            VariantFields::Unit => variant_model(variant).fields is Unit,
            VariantFields::Named(fields) => variant_model(variant).fields
                == VariantFieldsModel::Named(field_models(fields@)),
            VariantFields::Unnamed(types) => variant_model(variant).fields
                == VariantFieldsModel::Unnamed(type_models(types@)),
        },
        method_schema_model(method).name == method.name@,
        method_schema_model(method).arguments == argument_models(method.arguments@),
        method_schema_model(method).response == type_model(method.response),
        method_schema_model(method).is_async == method.is_async,
        schema_model(schema).name == schema.name@,
        schema_model(schema).methods.len() == schema.methods@.len(),
        forall|i: int|
            0 <= i < schema.methods@.len() ==> #[trigger] schema_model(schema).methods[i]
                == method_schema_model(schema.methods@[i]),
        schema_model(schema).events == event_models(schema.events@),
        schema_model(schema).types.len() == schema.types@.len(),
        forall|i: int|
            0 <= i < schema.types@.len() ==> #[trigger] schema_model(schema).types[i]
                == definition_model(schema.types@[i]),
{
}

/// A new definition is listed last, and one whose name is defined already is dropped: the first
/// one stays.
pub proof fn first_definitions_stay(types: Seq<DefinitionModel>, definition: DefinitionModel)
    ensures
        (exists|i: int| 0 <= i < types.len() && (#[trigger] types[i]).name == definition.name)
            ==> with_definition(types, definition) == types,
        (forall|i: int| 0 <= i < types.len() ==> (#[trigger] types[i]).name != definition.name)
            ==> {
            let after = with_definition(types, definition);
            &&& after.len() == types.len() + 1
            &&& after.last() == definition
            &&& after.drop_last() == types
        },
{
    if forall|i: int| 0 <= i < types.len() ==> (#[trigger] types[i]).name != definition.name {
        assert(!defines(types, definition.name));
        assert(types.push(definition).drop_last() =~= types);
    }
}

} // verus!
