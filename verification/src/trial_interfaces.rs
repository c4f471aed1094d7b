//! The interfaces the integration tests speak: a plugin and a host that put the object model
//! through its paces. The two root interfaces are the whole bootstrap; every other capability
//! is reached through their methods.

use vstd::prelude::*;
use crate::interfaces::{
    async_method_model, async_method_schema, field_schema, method_model, method_schema,
    SurfaceApi,
};
use crate::platform_types::Scalar;
use crate::schema::{
    argument_models, collect_definition, defines, definition_covered, definition_model,
    definition_models, event_models, field, field_models, is_covered, lemma_coverage_chains,
    lemma_covered_grows, method_schema_models, schema_covered, ArgumentSchema, DefinitionModel,
    Describe, EventSchema, FieldModel, FieldSchema, Interface, KindModel, MethodSchema, Ref,
    Schema, SchemaModel, TypeDefinition, TypeKind, TypeModel, TypeSchema,
};

verus! {

/// What a view can see of where it is: its bounds in its window, the window's viewport, and
/// the scale factor it renders at.
#[derive(Clone, Copy, Debug, PartialEq)]
pub struct SeenGeometry {
    pub x: Scalar,
    pub y: Scalar,
    pub width: Scalar,
    pub height: Scalar,
    pub viewport_width: Scalar,
    pub viewport_height: Scalar,
    pub scale_factor: Scalar,
    pub active: bool,
}

/// The definition of [`SeenGeometry`].
pub open spec fn seen_geometry_definition() -> DefinitionModel {
    DefinitionModel {
        name: "SeenGeometry"@,
        kind: KindModel::Struct(
            seq![
                field("x"@, Scalar::described()),
                field("y"@, Scalar::described()),
                field("width"@, Scalar::described()),
                field("height"@, Scalar::described()),
                field("viewport_width"@, Scalar::described()),
                field("viewport_height"@, Scalar::described()),
                field("scale_factor"@, Scalar::described()),
                field("active"@, bool::described()),
            ],
        ),
    }
}

impl Describe for SeenGeometry {
    open spec fn described() -> TypeModel {
        TypeModel::Named("SeenGeometry"@)
    }

    open spec fn collected(types: Seq<DefinitionModel>) -> Seq<DefinitionModel> {
        if defines(types, "SeenGeometry"@) {
            types
        } else {
            types.push(seen_geometry_definition())
        }
    }

    proof fn collecting_adds_each_once(types: Seq<DefinitionModel>) {
        if !defines(types, "SeenGeometry"@) {
            let step0 = types.push(seen_geometry_definition());
            assert(types.is_prefix_of(step0)) by {
                assert(types =~= step0.subrange(0, types.len() as int));
            }
        } else {
            assert(types =~= types.subrange(0, types.len() as int));
        }
    }

    proof fn collecting_covers_every_mention(types: Seq<DefinitionModel>) {
        reveal_with_fuel(is_covered, 3);
        if !defines(types, "SeenGeometry"@) {
            let own = types.push(seen_geometry_definition());
            Self::collecting_adds_each_once(types);
            assert(own[types.len() as int] == seen_geometry_definition());
            assert(definition_covered(own, seen_geometry_definition()));
            assert(own[types.len() as int].name == "SeenGeometry"@);
        }
    }

    fn describe() -> (schema: TypeSchema) {
        TypeSchema::Named("SeenGeometry")
    }

    fn collect(types: &mut Vec<TypeDefinition>) {
        let fields: Vec<FieldSchema> = vec![
            field_schema("x", Scalar::describe()),
            field_schema("y", Scalar::describe()),
            field_schema("width", Scalar::describe()),
            field_schema("height", Scalar::describe()),
            field_schema("viewport_width", Scalar::describe()),
            field_schema("viewport_height", Scalar::describe()),
            field_schema("scale_factor", Scalar::describe()),
            field_schema("active", bool::describe()),
        ];
        assert(field_models(fields@) =~= seq![
            field("x"@, Scalar::described()),
            field("y"@, Scalar::described()),
            field("width"@, Scalar::described()),
            field("height"@, Scalar::described()),
            field("viewport_width"@, Scalar::described()),
            field("viewport_height"@, Scalar::described()),
            field("scale_factor"@, Scalar::described()),
            field("active"@, bool::described()),
        ]);
        let definition = TypeDefinition { name: "SeenGeometry", kind: TypeKind::Struct(fields) };
        assert(definition_model(definition) == seen_geometry_definition());
        collect_definition(types, definition);
    }
}

/// The count crossed a multiple of ten.
#[derive(Debug, PartialEq)]
pub struct CounterMilestone {
    pub count: u32,
}

/// The definition of [`CounterMilestone`].
pub open spec fn counter_milestone_definition() -> DefinitionModel {
    DefinitionModel {
        name: "CounterMilestone"@,
        kind: KindModel::Struct(
            seq![
                field("count"@, u32::described()),
            ],
        ),
    }
}

impl Describe for CounterMilestone {
    open spec fn described() -> TypeModel {
        TypeModel::Named("CounterMilestone"@)
    }

    open spec fn collected(types: Seq<DefinitionModel>) -> Seq<DefinitionModel> {
        if defines(types, "CounterMilestone"@) {
            types
        } else {
            types.push(counter_milestone_definition())
        }
    }

    proof fn collecting_adds_each_once(types: Seq<DefinitionModel>) {
        if !defines(types, "CounterMilestone"@) {
            let step0 = types.push(counter_milestone_definition());
            assert(types.is_prefix_of(step0)) by {
                assert(types =~= step0.subrange(0, types.len() as int));
            }
        } else {
            assert(types =~= types.subrange(0, types.len() as int));
        }
    }

    proof fn collecting_covers_every_mention(types: Seq<DefinitionModel>) {
        reveal_with_fuel(is_covered, 3);
        if !defines(types, "CounterMilestone"@) {
            let own = types.push(counter_milestone_definition());
            Self::collecting_adds_each_once(types);
            assert(own[types.len() as int] == counter_milestone_definition());
            assert(definition_covered(own, counter_milestone_definition()));
            assert(own[types.len() as int].name == "CounterMilestone"@);
        }
    }

    fn describe() -> (schema: TypeSchema) {
        TypeSchema::Named("CounterMilestone")
    }

    fn collect(types: &mut Vec<TypeDefinition>) {
        let fields: Vec<FieldSchema> = vec![
            field_schema("count", u32::describe()),
        ];
        assert(field_models(fields@) =~= seq![
            field("count"@, u32::described()),
        ]);
        let definition = TypeDefinition { name: "CounterMilestone", kind: TypeKind::Struct(fields) };
        assert(definition_model(definition) == counter_milestone_definition());
        collect_definition(types, definition);
    }
}

/// What an item says of itself.
#[derive(Debug, PartialEq)]
pub struct ItemInfo {
    pub label: String,
    pub bumps: u32,
}

/// The definition of [`ItemInfo`].
pub open spec fn item_info_definition() -> DefinitionModel {
    DefinitionModel {
        name: "ItemInfo"@,
        kind: KindModel::Struct(
            seq![
                field("label"@, String::described()),
                field("bumps"@, u32::described()),
            ],
        ),
    }
}

impl Describe for ItemInfo {
    open spec fn described() -> TypeModel {
        TypeModel::Named("ItemInfo"@)
    }

    open spec fn collected(types: Seq<DefinitionModel>) -> Seq<DefinitionModel> {
        if defines(types, "ItemInfo"@) {
            types
        } else {
            types.push(item_info_definition())
        }
    }

    proof fn collecting_adds_each_once(types: Seq<DefinitionModel>) {
        if !defines(types, "ItemInfo"@) {
            let step0 = types.push(item_info_definition());
            assert(types.is_prefix_of(step0)) by {
                assert(types =~= step0.subrange(0, types.len() as int));
            }
        } else {
            assert(types =~= types.subrange(0, types.len() as int));
        }
    }

    proof fn collecting_covers_every_mention(types: Seq<DefinitionModel>) {
        reveal_with_fuel(is_covered, 3);
        if !defines(types, "ItemInfo"@) {
            let own = types.push(item_info_definition());
            Self::collecting_adds_each_once(types);
            assert(own[types.len() as int] == item_info_definition());
            assert(definition_covered(own, item_info_definition()));
            assert(own[types.len() as int].name == "ItemInfo"@);
        }
    }

    fn describe() -> (schema: TypeSchema) {
        TypeSchema::Named("ItemInfo")
    }

    fn collect(types: &mut Vec<TypeDefinition>) {
        let fields: Vec<FieldSchema> = vec![
            field_schema("label", String::describe()),
            field_schema("bumps", u32::describe()),
        ];
        assert(field_models(fields@) =~= seq![
            field("label"@, String::described()),
            field("bumps"@, u32::described()),
        ]);
        let definition = TypeDefinition { name: "ItemInfo", kind: TypeKind::Struct(fields) };
        assert(definition_model(definition) == item_info_definition());
        collect_definition(types, definition);
    }
}

/// What the chameleon's dynamic `state` method returns.
#[derive(Debug, PartialEq)]
pub struct ChameleonState {
    pub mode: String,
    pub pokes: u32,
}

/// The definition of [`ChameleonState`].
pub open spec fn chameleon_state_definition() -> DefinitionModel {
    DefinitionModel {
        name: "ChameleonState"@,
        kind: KindModel::Struct(
            seq![
                field("mode"@, String::described()),
                field("pokes"@, u32::described()),
            ],
        ),
    }
}

impl Describe for ChameleonState {
    open spec fn described() -> TypeModel {
        TypeModel::Named("ChameleonState"@)
    }

    open spec fn collected(types: Seq<DefinitionModel>) -> Seq<DefinitionModel> {
        if defines(types, "ChameleonState"@) {
            types
        } else {
            types.push(chameleon_state_definition())
        }
    }

    proof fn collecting_adds_each_once(types: Seq<DefinitionModel>) {
        if !defines(types, "ChameleonState"@) {
            let step0 = types.push(chameleon_state_definition());
            assert(types.is_prefix_of(step0)) by {
                assert(types =~= step0.subrange(0, types.len() as int));
            }
        } else {
            assert(types =~= types.subrange(0, types.len() as int));
        }
    }

    proof fn collecting_covers_every_mention(types: Seq<DefinitionModel>) {
        reveal_with_fuel(is_covered, 3);
        if !defines(types, "ChameleonState"@) {
            let own = types.push(chameleon_state_definition());
            Self::collecting_adds_each_once(types);
            assert(own[types.len() as int] == chameleon_state_definition());
            assert(definition_covered(own, chameleon_state_definition()));
            assert(own[types.len() as int].name == "ChameleonState"@);
        }
    }

    fn describe() -> (schema: TypeSchema) {
        TypeSchema::Named("ChameleonState")
    }

    fn collect(types: &mut Vec<TypeDefinition>) {
        let fields: Vec<FieldSchema> = vec![
            field_schema("mode", String::describe()),
            field_schema("pokes", u32::describe()),
        ];
        assert(field_models(fields@) =~= seq![
            field("mode"@, String::described()),
            field("pokes"@, u32::described()),
        ]);
        let definition = TypeDefinition { name: "ChameleonState", kind: TypeKind::Struct(fields) };
        assert(definition_model(definition) == chameleon_state_definition());
        collect_definition(types, definition);
    }
}

/// What a key opens.
#[derive(Debug)]
pub struct KeyApi;

impl Interface for KeyApi {
    open spec fn named() -> Seq<char> {
        "KeyApi"@
    }

    fn name() -> (name: &'static str) {
        "KeyApi"
    }

    open spec fn interface() -> SchemaModel {
        SchemaModel {
            name: "KeyApi"@,
            methods: seq![
                method_model(
                    "unlock"@,
                    Seq::empty(),
                    String::described(),
                ),
            ],
            events: Seq::empty(),
            types: Seq::empty(),
        }
    }

    proof fn types_are_listed_once() {
    }

    proof fn every_mention_is_listed() {
        reveal_with_fuel(is_covered, 3);
        assert(schema_covered(Self::interface()));
    }

    fn schema() -> (schema: Schema) {
        let unlock_arguments: Vec<ArgumentSchema> = Vec::new();
        assert(argument_models(unlock_arguments@) =~= Seq::<FieldModel>::empty());
        let methods: Vec<MethodSchema> = vec![
            method_schema("unlock", unlock_arguments, String::describe()),
        ];
        assert(method_schema_models(methods@) =~= Self::interface().methods);
        let events: Vec<EventSchema> = Vec::new();
        assert(event_models(events@) =~= Self::interface().events);
        let types: Vec<TypeDefinition> = Vec::new();
        assert(definition_models(types@) =~= Seq::<DefinitionModel>::empty());
        Schema { name: "KeyApi", methods, events, types }
    }
}

/// A vault, and the key it hands out.
#[derive(Debug)]
pub struct VaultApi;

impl Interface for VaultApi {
    open spec fn named() -> Seq<char> {
        "VaultApi"@
    }

    fn name() -> (name: &'static str) {
        "VaultApi"
    }

    open spec fn interface() -> SchemaModel {
        SchemaModel {
            name: "VaultApi"@,
            methods: seq![
                async_method_model(
                    "read"@,
                    Seq::empty(),
                    String::described(),
                ),
                method_model(
                    "key"@,
                    Seq::empty(),
                    Ref::<KeyApi>::described(),
                ),
            ],
            events: Seq::empty(),
            types: Seq::empty(),
        }
    }

    proof fn types_are_listed_once() {
    }

    proof fn every_mention_is_listed() {
        reveal_with_fuel(is_covered, 3);
        assert(schema_covered(Self::interface()));
    }

    fn schema() -> (schema: Schema) {
        let read_arguments: Vec<ArgumentSchema> = Vec::new();
        assert(argument_models(read_arguments@) =~= Seq::<FieldModel>::empty());
        let key_arguments: Vec<ArgumentSchema> = Vec::new();
        assert(argument_models(key_arguments@) =~= Seq::<FieldModel>::empty());
        let methods: Vec<MethodSchema> = vec![
            async_method_schema("read", read_arguments, String::describe()),
            method_schema("key", key_arguments, Ref::<KeyApi>::describe()),
        ];
        assert(method_schema_models(methods@) =~= Self::interface().methods);
        let events: Vec<EventSchema> = Vec::new();
        assert(event_models(events@) =~= Self::interface().events);
        let types: Vec<TypeDefinition> = Vec::new();
        assert(definition_models(types@) =~= Seq::<DefinitionModel>::empty());
        Schema { name: "VaultApi", methods, events, types }
    }
}

/// An item of a factory.
#[derive(Debug)]
pub struct ItemApi;

impl Interface for ItemApi {
    open spec fn named() -> Seq<char> {
        "ItemApi"@
    }

    fn name() -> (name: &'static str) {
        "ItemApi"
    }

    open spec fn interface() -> SchemaModel {
        SchemaModel {
            name: "ItemApi"@,
            methods: seq![
                method_model(
                    "bump"@,
                    Seq::empty(),
                    u32::described(),
                ),
                method_model(
                    "describe"@,
                    Seq::empty(),
                    ItemInfo::described(),
                ),
            ],
            events: Seq::empty(),
            types: {
                let types = Seq::empty();
                ItemInfo::collected(types)
            },
        }
    }

    proof fn types_are_listed_once() {
        let step0 = Seq::<DefinitionModel>::empty();
        ItemInfo::collecting_adds_each_once(step0);
    }

    proof fn every_mention_is_listed() {
        reveal_with_fuel(is_covered, 3);
        let from = 0int;
        let none = Seq::<DefinitionModel>::empty();
        ItemInfo::collecting_adds_each_once(none);
        ItemInfo::collecting_covers_every_mention(none);
        let covered0 = ItemInfo::collected(none);
        lemma_coverage_chains(none, covered0, from);
        assert(Self::interface().types == covered0);
        assert(schema_covered(Self::interface()));
    }

    fn schema() -> (schema: Schema) {
        let bump_arguments: Vec<ArgumentSchema> = Vec::new();
        assert(argument_models(bump_arguments@) =~= Seq::<FieldModel>::empty());
        let describe_arguments: Vec<ArgumentSchema> = Vec::new();
        assert(argument_models(describe_arguments@) =~= Seq::<FieldModel>::empty());
        let methods: Vec<MethodSchema> = vec![
            method_schema("bump", bump_arguments, u32::describe()),
            method_schema("describe", describe_arguments, ItemInfo::describe()),
        ];
        assert(method_schema_models(methods@) =~= Self::interface().methods);
        let events: Vec<EventSchema> = Vec::new();
        assert(event_models(events@) =~= Self::interface().events);
        let mut types: Vec<TypeDefinition> = Vec::new();
        assert(definition_models(types@) =~= Seq::<DefinitionModel>::empty());
        ItemInfo::collect(&mut types);
        Schema { name: "ItemApi", methods, events, types }
    }
}

/// A factory of items.
#[derive(Debug)]
pub struct FactoryApi;

impl Interface for FactoryApi {
    open spec fn named() -> Seq<char> {
        "FactoryApi"@
    }

    fn name() -> (name: &'static str) {
        "FactoryApi"
    }

    open spec fn interface() -> SchemaModel {
        SchemaModel {
            name: "FactoryApi"@,
            methods: seq![
                method_model(
                    "create"@,
                    seq![field("label"@, String::described())],
                    Ref::<ItemApi>::described(),
                ),
            ],
            events: Seq::empty(),
            types: Seq::empty(),
        }
    }

    proof fn types_are_listed_once() {
    }

    proof fn every_mention_is_listed() {
        reveal_with_fuel(is_covered, 3);
        assert(schema_covered(Self::interface()));
    }

    fn schema() -> (schema: Schema) {
        let create_arguments: Vec<ArgumentSchema> = vec![
            ArgumentSchema { name: "label", ty: String::describe() },
        ];
        assert(argument_models(create_arguments@) =~= seq![field("label"@, String::described())]);
        let methods: Vec<MethodSchema> = vec![
            method_schema("create", create_arguments, Ref::<ItemApi>::describe()),
        ];
        assert(method_schema_models(methods@) =~= Self::interface().methods);
        let events: Vec<EventSchema> = Vec::new();
        assert(event_models(events@) =~= Self::interface().events);
        let types: Vec<TypeDefinition> = Vec::new();
        assert(definition_models(types@) =~= Seq::<DefinitionModel>::empty());
        Schema { name: "FactoryApi", methods, events, types }
    }
}

/// Guards vaults, and probes what a ref permits.
#[derive(Debug)]
pub struct GatekeeperApi;

impl Interface for GatekeeperApi {
    open spec fn named() -> Seq<char> {
        "GatekeeperApi"@
    }

    fn name() -> (name: &'static str) {
        "GatekeeperApi"
    }

    open spec fn interface() -> SchemaModel {
        SchemaModel {
            name: "GatekeeperApi"@,
            methods: seq![
                method_model(
                    "guard"@,
                    seq![field("vault"@, Ref::<VaultApi>::described())],
                    Ref::<VaultApi>::described(),
                ),
                async_method_model(
                    "probe"@,
                    seq![
                        field("target"@, Ref::<ItemApi>::described()),
                        field("method"@, String::described()),
                        field("payload"@, Vec::<u8>::described()),
                    ],
                    Vec::<u8>::described(),
                ),
            ],
            events: Seq::empty(),
            types: Seq::empty(),
        }
    }

    proof fn types_are_listed_once() {
    }

    proof fn every_mention_is_listed() {
        reveal_with_fuel(is_covered, 3);
        assert(schema_covered(Self::interface()));
    }

    fn schema() -> (schema: Schema) {
        let guard_arguments: Vec<ArgumentSchema> = vec![
            ArgumentSchema { name: "vault", ty: Ref::<VaultApi>::describe() },
        ];
        assert(argument_models(guard_arguments@) =~= seq![
            field("vault"@, Ref::<VaultApi>::described()),
        ]);
        let probe_arguments: Vec<ArgumentSchema> = vec![
            ArgumentSchema { name: "target", ty: Ref::<ItemApi>::describe() },
            ArgumentSchema { name: "method", ty: String::describe() },
            ArgumentSchema { name: "payload", ty: Vec::<u8>::describe() },
        ];
        assert(argument_models(probe_arguments@) =~= seq![
            field("target"@, Ref::<ItemApi>::described()),
            field("method"@, String::described()),
            field("payload"@, Vec::<u8>::described()),
        ]);
        let methods: Vec<MethodSchema> = vec![
            method_schema("guard", guard_arguments, Ref::<VaultApi>::describe()),
            async_method_schema("probe", probe_arguments, Vec::<u8>::describe()),
        ];
        assert(method_schema_models(methods@) =~= Self::interface().methods);
        let events: Vec<EventSchema> = Vec::new();
        assert(event_models(events@) =~= Self::interface().events);
        let types: Vec<TypeDefinition> = Vec::new();
        assert(definition_models(types@) =~= Seq::<DefinitionModel>::empty());
        Schema { name: "GatekeeperApi", methods, events, types }
    }
}

/// No methods at all: the chameleon interprets its method names as it runs.
#[derive(Debug)]
pub struct ChameleonApi;

impl Interface for ChameleonApi {
    open spec fn named() -> Seq<char> {
        "ChameleonApi"@
    }

    fn name() -> (name: &'static str) {
        "ChameleonApi"
    }

    open spec fn interface() -> SchemaModel {
        SchemaModel {
            name: "ChameleonApi"@,
            methods: Seq::empty(),
            events: Seq::empty(),
            types: Seq::empty(),
        }
    }

    proof fn types_are_listed_once() {
    }

    proof fn every_mention_is_listed() {
        reveal_with_fuel(is_covered, 3);
        assert(schema_covered(Self::interface()));
    }

    fn schema() -> (schema: Schema) {
        let methods: Vec<MethodSchema> = Vec::new();
        assert(method_schema_models(methods@) =~= Self::interface().methods);
        let events: Vec<EventSchema> = Vec::new();
        assert(event_models(events@) =~= Self::interface().events);
        let types: Vec<TypeDefinition> = Vec::new();
        assert(definition_models(types@) =~= Seq::<DefinitionModel>::empty());
        Schema { name: "ChameleonApi", methods, events, types }
    }
}

/// What the plugin observed of a mounted view.
#[derive(Debug)]
pub struct ViewProbeApi;

impl Interface for ViewProbeApi {
    open spec fn named() -> Seq<char> {
        "ViewProbeApi"@
    }

    fn name() -> (name: &'static str) {
        "ViewProbeApi"
    }

    open spec fn interface() -> SchemaModel {
        SchemaModel {
            name: "ViewProbeApi"@,
            methods: seq![
                method_model(
                    "last_geometry"@,
                    Seq::empty(),
                    Option::<SeenGeometry>::described(),
                ),
                method_model(
                    "clicks"@,
                    Seq::empty(),
                    u32::described(),
                ),
                method_model(
                    "focus"@,
                    Seq::empty(),
                    <()>::described(),
                ),
                method_model(
                    "text"@,
                    Seq::empty(),
                    String::described(),
                ),
                method_model(
                    "handled_keys"@,
                    Seq::empty(),
                    u32::described(),
                ),
                method_model(
                    "view_alive"@,
                    Seq::empty(),
                    bool::described(),
                ),
            ],
            events: Seq::empty(),
            types: {
                let types = Seq::empty();
                Option::<SeenGeometry>::collected(types)
            },
        }
    }

    proof fn types_are_listed_once() {
        let step0 = Seq::<DefinitionModel>::empty();
        Option::<SeenGeometry>::collecting_adds_each_once(step0);
    }

    proof fn every_mention_is_listed() {
        reveal_with_fuel(is_covered, 3);
        let from = 0int;
        let none = Seq::<DefinitionModel>::empty();
        Option::<SeenGeometry>::collecting_adds_each_once(none);
        Option::<SeenGeometry>::collecting_covers_every_mention(none);
        let covered0 = Option::<SeenGeometry>::collected(none);
        lemma_coverage_chains(none, covered0, from);
        assert(Self::interface().types == covered0);
        assert(schema_covered(Self::interface()));
    }

    fn schema() -> (schema: Schema) {
        let last_geometry_arguments: Vec<ArgumentSchema> = Vec::new();
        assert(argument_models(last_geometry_arguments@) =~= Seq::<FieldModel>::empty());
        let clicks_arguments: Vec<ArgumentSchema> = Vec::new();
        assert(argument_models(clicks_arguments@) =~= Seq::<FieldModel>::empty());
        let focus_arguments: Vec<ArgumentSchema> = Vec::new();
        assert(argument_models(focus_arguments@) =~= Seq::<FieldModel>::empty());
        let text_arguments: Vec<ArgumentSchema> = Vec::new();
        assert(argument_models(text_arguments@) =~= Seq::<FieldModel>::empty());
        let handled_keys_arguments: Vec<ArgumentSchema> = Vec::new();
        assert(argument_models(handled_keys_arguments@) =~= Seq::<FieldModel>::empty());
        let view_alive_arguments: Vec<ArgumentSchema> = Vec::new();
        assert(argument_models(view_alive_arguments@) =~= Seq::<FieldModel>::empty());
        let methods: Vec<MethodSchema> = vec![
            method_schema("last_geometry", last_geometry_arguments, Option::<SeenGeometry>::describe()),
            method_schema("clicks", clicks_arguments, u32::describe()),
            method_schema("focus", focus_arguments, <()>::describe()),
            method_schema("text", text_arguments, String::describe()),
            method_schema("handled_keys", handled_keys_arguments, u32::describe()),
            method_schema("view_alive", view_alive_arguments, bool::describe()),
        ];
        assert(method_schema_models(methods@) =~= Self::interface().methods);
        let events: Vec<EventSchema> = Vec::new();
        assert(event_models(events@) =~= Self::interface().events);
        let mut types: Vec<TypeDefinition> = Vec::new();
        assert(definition_models(types@) =~= Seq::<DefinitionModel>::empty());
        Option::<SeenGeometry>::collect(&mut types);
        Schema { name: "ViewProbeApi", methods, events, types }
    }
}

/// A counter; crossing a multiple of ten emits a [`CounterMilestone`].
#[derive(Debug)]
pub struct TestCounterApi;

impl Interface for TestCounterApi {
    open spec fn named() -> Seq<char> {
        "TestCounterApi"@
    }

    fn name() -> (name: &'static str) {
        "TestCounterApi"
    }

    open spec fn interface() -> SchemaModel {
        SchemaModel {
            name: "TestCounterApi"@,
            methods: seq![
                method_model(
                    "increment"@,
                    seq![field("by"@, u32::described())],
                    u32::described(),
                ),
                method_model(
                    "count"@,
                    Seq::empty(),
                    u32::described(),
                ),
            ],
            events: seq![field("counter_milestone"@, CounterMilestone::described())],
            types: {
                let types = Seq::empty();
                CounterMilestone::collected(types)
            },
        }
    }

    proof fn types_are_listed_once() {
        let step0 = Seq::<DefinitionModel>::empty();
        CounterMilestone::collecting_adds_each_once(step0);
    }

    proof fn every_mention_is_listed() {
        reveal_with_fuel(is_covered, 3);
        let from = 0int;
        let none = Seq::<DefinitionModel>::empty();
        CounterMilestone::collecting_adds_each_once(none);
        CounterMilestone::collecting_covers_every_mention(none);
        let covered0 = CounterMilestone::collected(none);
        lemma_coverage_chains(none, covered0, from);
        assert(Self::interface().types == covered0);
        assert(schema_covered(Self::interface()));
    }

    fn schema() -> (schema: Schema) {
        let increment_arguments: Vec<ArgumentSchema> = vec![
            ArgumentSchema { name: "by", ty: u32::describe() },
        ];
        assert(argument_models(increment_arguments@) =~= seq![field("by"@, u32::described())]);
        let count_arguments: Vec<ArgumentSchema> = Vec::new();
        assert(argument_models(count_arguments@) =~= Seq::<FieldModel>::empty());
        let methods: Vec<MethodSchema> = vec![
            method_schema("increment", increment_arguments, u32::describe()),
            method_schema("count", count_arguments, u32::describe()),
        ];
        assert(method_schema_models(methods@) =~= Self::interface().methods);
        let events: Vec<EventSchema> = vec![
            EventSchema { name: "counter_milestone", ty: CounterMilestone::describe() },
        ];
        assert(event_models(events@) =~= Self::interface().events);
        let mut types: Vec<TypeDefinition> = Vec::new();
        assert(definition_models(types@) =~= Seq::<DefinitionModel>::empty());
        CounterMilestone::collect(&mut types);
        Schema { name: "TestCounterApi", methods, events, types }
    }
}

/// The host's root.
#[derive(Debug)]
pub struct TestHost;

impl Interface for TestHost {
    open spec fn named() -> Seq<char> {
        "TestHost"@
    }

    fn name() -> (name: &'static str) {
        "TestHost"
    }

    open spec fn interface() -> SchemaModel {
        SchemaModel {
            name: "TestHost"@,
            methods: seq![
                method_model(
                    "ping"@,
                    seq![field("message"@, String::described())],
                    String::described(),
                ),
            ],
            events: Seq::empty(),
            types: Seq::empty(),
        }
    }

    proof fn types_are_listed_once() {
    }

    proof fn every_mention_is_listed() {
        reveal_with_fuel(is_covered, 3);
        assert(schema_covered(Self::interface()));
    }

    fn schema() -> (schema: Schema) {
        let ping_arguments: Vec<ArgumentSchema> = vec![
            ArgumentSchema { name: "message", ty: String::describe() },
        ];
        assert(argument_models(ping_arguments@) =~= seq![field("message"@, String::described())]);
        let methods: Vec<MethodSchema> = vec![
            method_schema("ping", ping_arguments, String::describe()),
        ];
        assert(method_schema_models(methods@) =~= Self::interface().methods);
        let events: Vec<EventSchema> = Vec::new();
        assert(event_models(events@) =~= Self::interface().events);
        let types: Vec<TypeDefinition> = Vec::new();
        assert(definition_models(types@) =~= Seq::<DefinitionModel>::empty());
        Schema { name: "TestHost", methods, events, types }
    }
}

/// The plugin's root.
#[derive(Debug)]
pub struct TestPlugin;

impl Interface for TestPlugin {
    open spec fn named() -> Seq<char> {
        "TestPlugin"@
    }

    fn name() -> (name: &'static str) {
        "TestPlugin"
    }

    open spec fn interface() -> SchemaModel {
        SchemaModel {
            name: "TestPlugin"@,
            methods: seq![
                method_model(
                    "counter"@,
                    Seq::empty(),
                    Ref::<TestCounterApi>::described(),
                ),
                method_model(
                    "factory"@,
                    Seq::empty(),
                    Ref::<FactoryApi>::described(),
                ),
                method_model(
                    "gatekeeper"@,
                    Seq::empty(),
                    Ref::<GatekeeperApi>::described(),
                ),
                method_model(
                    "chameleon"@,
                    Seq::empty(),
                    Ref::<ChameleonApi>::described(),
                ),
                async_method_model(
                    "ping_host"@,
                    seq![field("message"@, String::described())],
                    String::described(),
                ),
                method_model(
                    "mount"@,
                    seq![field("surface"@, Ref::<SurfaceApi>::described())],
                    Ref::<ViewProbeApi>::described(),
                ),
                method_model(
                    "spin"@,
                    seq![field("millis"@, u64::described())],
                    <()>::described(),
                ),
            ],
            events: Seq::empty(),
            types: Seq::empty(),
        }
    }

    proof fn types_are_listed_once() {
    }

    proof fn every_mention_is_listed() {
        reveal_with_fuel(is_covered, 3);
        assert(schema_covered(Self::interface()));
    }

    fn schema() -> (schema: Schema) {
        let counter_arguments: Vec<ArgumentSchema> = Vec::new();
        assert(argument_models(counter_arguments@) =~= Seq::<FieldModel>::empty());
        let factory_arguments: Vec<ArgumentSchema> = Vec::new();
        assert(argument_models(factory_arguments@) =~= Seq::<FieldModel>::empty());
        let gatekeeper_arguments: Vec<ArgumentSchema> = Vec::new();
        assert(argument_models(gatekeeper_arguments@) =~= Seq::<FieldModel>::empty());
        let chameleon_arguments: Vec<ArgumentSchema> = Vec::new();
        assert(argument_models(chameleon_arguments@) =~= Seq::<FieldModel>::empty());
        let ping_host_arguments: Vec<ArgumentSchema> = vec![
            ArgumentSchema { name: "message", ty: String::describe() },
        ];
        assert(argument_models(ping_host_arguments@) =~= seq![
            field("message"@, String::described()),
        ]);
        let mount_arguments: Vec<ArgumentSchema> = vec![
            ArgumentSchema { name: "surface", ty: Ref::<SurfaceApi>::describe() },
        ];
        assert(argument_models(mount_arguments@) =~= seq![
            field("surface"@, Ref::<SurfaceApi>::described()),
        ]);
        let spin_arguments: Vec<ArgumentSchema> = vec![
            ArgumentSchema { name: "millis", ty: u64::describe() },
        ];
        assert(argument_models(spin_arguments@) =~= seq![field("millis"@, u64::described())]);
        let methods: Vec<MethodSchema> = vec![
            method_schema("counter", counter_arguments, Ref::<TestCounterApi>::describe()),
            method_schema("factory", factory_arguments, Ref::<FactoryApi>::describe()),
            method_schema("gatekeeper", gatekeeper_arguments, Ref::<GatekeeperApi>::describe()),
            method_schema("chameleon", chameleon_arguments, Ref::<ChameleonApi>::describe()),
            async_method_schema("ping_host", ping_host_arguments, String::describe()),
            method_schema("mount", mount_arguments, Ref::<ViewProbeApi>::describe()),
            method_schema("spin", spin_arguments, <()>::describe()),
        ];
        assert(method_schema_models(methods@) =~= Self::interface().methods);
        let events: Vec<EventSchema> = Vec::new();
        assert(event_models(events@) =~= Self::interface().events);
        let types: Vec<TypeDefinition> = Vec::new();
        assert(definition_models(types@) =~= Seq::<DefinitionModel>::empty());
        Schema { name: "TestPlugin", methods, events, types }
    }
}

} // verus!
