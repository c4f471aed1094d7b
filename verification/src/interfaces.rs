//! The interfaces that are spoken across the boundary, described as data: the surface and
//! the view that draws on it, the clipboard, the script runtime, and the demonstration.

use vstd::prelude::*;
use crate::clipboard::ClipboardChanged;
use crate::demo::Milestone;
use crate::platform_types::Scalar;
use crate::schema::{
    argument_models, collect_definition, defines, definition_covered, definition_model,
    definition_models, event_models, field, field_models, is_covered, lemma_coverage_chains,
    lemma_covered_grows, lemma_four_are_collected, lemma_three_are_collected, lemma_type_models,
    method_schema_model, method_schema_models, plain, schema_covered, type_model, type_models,
    variant_model, variant_models, ArgumentSchema, DefinitionModel, Describe, EventSchema,
    FieldModel, FieldSchema, Interface, KindModel, MethodSchema, MethodSchemaModel, Ref, Schema,
    SchemaModel, TypeDefinition, TypeKind, TypeModel, TypeSchema, VariantFields,
    VariantFieldsModel, VariantModel, VariantSchema,
};
use crate::surface::{
    Appearance, Cursor, Geometry, HostWindow, KeyEvent, Keystroke, Modifiers, MouseButton,
    MouseButtonEvent, MouseEvent, MouseExitEvent, MouseMoveEvent, Point, ScrollWheelEvent,
};

verus! {

pub(crate) fn field_schema(name: &'static str, ty: TypeSchema) -> (schema: FieldSchema)
    ensures
        schema == (FieldSchema { name, ty }),
{
    FieldSchema { name, ty }
}

fn plain_variant(name: &'static str) -> (variant: VariantSchema)
    ensures
        variant_model(variant) == plain(name@),
{
    VariantSchema { name, fields: VariantFields::Unit }
}

fn holding_variant(name: &'static str, ty: TypeSchema) -> (variant: VariantSchema)
    ensures
        variant_model(variant) == holding(name@, type_model(ty)),
{
    let types: Vec<TypeSchema> = vec![ty];
    proof {
        lemma_type_models(types@);
        assert(type_models(types@) =~= seq![type_model(ty)]);
    }
    VariantSchema { name, fields: VariantFields::Unnamed(types) }
}

fn record_variant(name: &'static str, fields: Vec<FieldSchema>) -> (variant: VariantSchema)
    ensures
        variant_model(variant) == record(name@, field_models(fields@)),
{
    VariantSchema { name, fields: VariantFields::Named(fields) }
}

pub(crate) fn method_schema(
    name: &'static str,
    arguments: Vec<ArgumentSchema>,
    response: TypeSchema,
) -> (method: MethodSchema)
    ensures
        method_schema_model(method) == method_model(
            name@,
            argument_models(arguments@),
            type_model(response),
        ),
{
    MethodSchema { name, arguments, response, is_async: false }
}

pub(crate) fn async_method_schema(
    name: &'static str,
    arguments: Vec<ArgumentSchema>,
    response: TypeSchema,
) -> (method: MethodSchema)
    ensures
        method_schema_model(method) == async_method_model(
            name@,
            argument_models(arguments@),
            type_model(response),
        ),
{
    MethodSchema { name, arguments, response, is_async: true }
}

/// A variant that holds one value.
pub open spec fn holding(name: Seq<char>, ty: TypeModel) -> VariantModel {
    VariantModel { name, fields: VariantFieldsModel::Unnamed(seq![ty]) }
}

/// A variant with named fields.
pub open spec fn record(name: Seq<char>, fields: Seq<FieldModel>) -> VariantModel {
    VariantModel { name, fields: VariantFieldsModel::Named(fields) }
}

/// A method that answers at once.
pub open spec fn method_model(
    name: Seq<char>,
    arguments: Seq<FieldModel>,
    response: TypeModel,
) -> MethodSchemaModel {
    MethodSchemaModel { name, arguments, response, is_async: false }
}

/// A method that answers when it has an answer.
pub open spec fn async_method_model(
    name: Seq<char>,
    arguments: Seq<FieldModel>,
    response: TypeModel,
) -> MethodSchemaModel {
    MethodSchemaModel { name, arguments, response, is_async: true }
}

/// What comes before, and what is only added to it, comes before what is added to that.
proof fn lemma_prefixes_chain(
    first: Seq<DefinitionModel>,
    second: Seq<DefinitionModel>,
    third: Seq<DefinitionModel>,
)
    requires
        first.is_prefix_of(second),
        second.is_prefix_of(third),
    ensures
        first.is_prefix_of(third),
{
    assert(first =~= third.subrange(0, first.len() as int)) by {
        assert forall|i: int| 0 <= i < first.len() implies first[i] == third[i] by {
            assert(first[i] == second.subrange(0, first.len() as int)[i]);
            assert(second[i] == third.subrange(0, second.len() as int)[i]);
        }
    }
}

/// The definition of [`Appearance`].
pub open spec fn appearance_definition() -> DefinitionModel {
    DefinitionModel {
        name: "Appearance"@,
        kind: KindModel::Enum(
            seq![
                plain("Light"@),
                plain("VibrantLight"@),
                plain("Dark"@),
                plain("VibrantDark"@),
            ],
        ),
    }
}

impl Describe for Appearance {
    open spec fn described() -> TypeModel {
        TypeModel::Named("Appearance"@)
    }

    open spec fn collected(types: Seq<DefinitionModel>) -> Seq<DefinitionModel> {
        if defines(types, "Appearance"@) {
            types
        } else {
            types.push(appearance_definition())
        }
    }

    proof fn collecting_adds_each_once(types: Seq<DefinitionModel>) {
        if !defines(types, "Appearance"@) {
            let step0 = types.push(appearance_definition());
            assert(types.is_prefix_of(step0)) by {
                assert(types =~= step0.subrange(0, types.len() as int));
            }
        } else {
            assert(types =~= types.subrange(0, types.len() as int));
        }
    }

    proof fn collecting_covers_every_mention(types: Seq<DefinitionModel>) {
        reveal_with_fuel(is_covered, 3);
        if !defines(types, "Appearance"@) {
            let own = types.push(appearance_definition());
            Self::collecting_adds_each_once(types);
            assert(own[types.len() as int] == appearance_definition());
            assert(definition_covered(own, appearance_definition()));
            assert(own[types.len() as int].name == "Appearance"@);
        }
    }

    fn describe() -> (schema: TypeSchema) {
        TypeSchema::Named("Appearance")
    }

    fn collect(types: &mut Vec<TypeDefinition>) {
        let variants: Vec<VariantSchema> = vec![
            plain_variant("Light"),
            plain_variant("VibrantLight"),
            plain_variant("Dark"),
            plain_variant("VibrantDark"),
        ];
        assert(variant_models(variants@) =~= seq![
            plain("Light"@),
            plain("VibrantLight"@),
            plain("Dark"@),
            plain("VibrantDark"@),
        ]);
        let definition = TypeDefinition { name: "Appearance", kind: TypeKind::Enum(variants) };
        assert(definition_model(definition) == appearance_definition());
        collect_definition(types, definition);
    }
}

/// The definition of [`HostWindow`].
pub open spec fn host_window_definition() -> DefinitionModel {
    DefinitionModel {
        name: "HostWindow"@,
        kind: KindModel::Struct(
            seq![
                field("id"@, u64::described()),
                field("width"@, Scalar::described()),
                field("height"@, Scalar::described()),
                field("scale_factor"@, Scalar::described()),
                field("active"@, bool::described()),
                field("appearance"@, Appearance::described()),
            ],
        ),
    }
}

impl Describe for HostWindow {
    open spec fn described() -> TypeModel {
        TypeModel::Named("HostWindow"@)
    }

    open spec fn collected(types: Seq<DefinitionModel>) -> Seq<DefinitionModel> {
        if defines(types, "HostWindow"@) {
            types
        } else {
            let types = types.push(host_window_definition());
            Appearance::collected(types)
        }
    }

    proof fn collecting_adds_each_once(types: Seq<DefinitionModel>) {
        if !defines(types, "HostWindow"@) {
            let step0 = types.push(host_window_definition());
            assert(types.is_prefix_of(step0)) by {
                assert(types =~= step0.subrange(0, types.len() as int));
            }
            Appearance::collecting_adds_each_once(step0);
            let step1 = Appearance::collected(step0);
            lemma_prefixes_chain(types, step0, step1);
        } else {
            assert(types =~= types.subrange(0, types.len() as int));
        }
    }

    proof fn collecting_covers_every_mention(types: Seq<DefinitionModel>) {
        reveal_with_fuel(is_covered, 3);
        if !defines(types, "HostWindow"@) {
            let from = types.len() as int + 1;
            let own = types.push(host_window_definition());
            Appearance::collecting_adds_each_once(own);
            Appearance::collecting_covers_every_mention(own);
            let covered0 = Appearance::collected(own);
            lemma_coverage_chains(own, covered0, from);
            Self::collecting_adds_each_once(types);
            assert(covered0[types.len() as int] == host_window_definition());
            assert(definition_covered(covered0, host_window_definition()));
            assert(covered0[types.len() as int].name == "HostWindow"@);
        }
    }

    fn describe() -> (schema: TypeSchema) {
        TypeSchema::Named("HostWindow")
    }

    fn collect(types: &mut Vec<TypeDefinition>) {
        let fields: Vec<FieldSchema> = vec![
            field_schema("id", u64::describe()),
            field_schema("width", Scalar::describe()),
            field_schema("height", Scalar::describe()),
            field_schema("scale_factor", Scalar::describe()),
            field_schema("active", bool::describe()),
            field_schema("appearance", Appearance::describe()),
        ];
        assert(field_models(fields@) =~= seq![
            field("id"@, u64::described()),
            field("width"@, Scalar::described()),
            field("height"@, Scalar::described()),
            field("scale_factor"@, Scalar::described()),
            field("active"@, bool::described()),
            field("appearance"@, Appearance::described()),
        ]);
        let definition = TypeDefinition { name: "HostWindow", kind: TypeKind::Struct(fields) };
        assert(definition_model(definition) == host_window_definition());
        if collect_definition(types, definition) {
            Appearance::collect(types);
        }
    }
}

/// The definition of [`Geometry`].
pub open spec fn geometry_definition() -> DefinitionModel {
    DefinitionModel {
        name: "Geometry"@,
        kind: KindModel::Struct(
            seq![
                field("x"@, Scalar::described()),
                field("y"@, Scalar::described()),
                field("width"@, Scalar::described()),
                field("height"@, Scalar::described()),
                field("window"@, HostWindow::described()),
            ],
        ),
    }
}

impl Describe for Geometry {
    open spec fn described() -> TypeModel {
        TypeModel::Named("Geometry"@)
    }

    open spec fn collected(types: Seq<DefinitionModel>) -> Seq<DefinitionModel> {
        if defines(types, "Geometry"@) {
            types
        } else {
            let types = types.push(geometry_definition());
            HostWindow::collected(types)
        }
    }

    proof fn collecting_adds_each_once(types: Seq<DefinitionModel>) {
        if !defines(types, "Geometry"@) {
            let step0 = types.push(geometry_definition());
            assert(types.is_prefix_of(step0)) by {
                assert(types =~= step0.subrange(0, types.len() as int));
            }
            HostWindow::collecting_adds_each_once(step0);
            let step1 = HostWindow::collected(step0);
            lemma_prefixes_chain(types, step0, step1);
        } else {
            assert(types =~= types.subrange(0, types.len() as int));
        }
    }

    proof fn collecting_covers_every_mention(types: Seq<DefinitionModel>) {
        reveal_with_fuel(is_covered, 3);
        if !defines(types, "Geometry"@) {
            let from = types.len() as int + 1;
            let own = types.push(geometry_definition());
            HostWindow::collecting_adds_each_once(own);
            HostWindow::collecting_covers_every_mention(own);
            let covered0 = HostWindow::collected(own);
            lemma_coverage_chains(own, covered0, from);
            Self::collecting_adds_each_once(types);
            assert(covered0[types.len() as int] == geometry_definition());
            assert(definition_covered(covered0, geometry_definition()));
            assert(covered0[types.len() as int].name == "Geometry"@);
        }
    }

    fn describe() -> (schema: TypeSchema) {
        TypeSchema::Named("Geometry")
    }

    fn collect(types: &mut Vec<TypeDefinition>) {
        let fields: Vec<FieldSchema> = vec![
            field_schema("x", Scalar::describe()),
            field_schema("y", Scalar::describe()),
            field_schema("width", Scalar::describe()),
            field_schema("height", Scalar::describe()),
            field_schema("window", HostWindow::describe()),
        ];
        assert(field_models(fields@) =~= seq![
            field("x"@, Scalar::described()),
            field("y"@, Scalar::described()),
            field("width"@, Scalar::described()),
            field("height"@, Scalar::described()),
            field("window"@, HostWindow::described()),
        ]);
        let definition = TypeDefinition { name: "Geometry", kind: TypeKind::Struct(fields) };
        assert(definition_model(definition) == geometry_definition());
        if collect_definition(types, definition) {
            HostWindow::collect(types);
        }
    }
}

/// The definition of [`MouseButton`].
pub open spec fn mouse_button_definition() -> DefinitionModel {
    DefinitionModel {
        name: "MouseButton"@,
        kind: KindModel::Enum(
            seq![
                plain("Left"@),
                plain("Right"@),
                plain("Middle"@),
            ],
        ),
    }
}

impl Describe for MouseButton {
    open spec fn described() -> TypeModel {
        TypeModel::Named("MouseButton"@)
    }

    open spec fn collected(types: Seq<DefinitionModel>) -> Seq<DefinitionModel> {
        if defines(types, "MouseButton"@) {
            types
        } else {
            types.push(mouse_button_definition())
        }
    }

    proof fn collecting_adds_each_once(types: Seq<DefinitionModel>) {
        if !defines(types, "MouseButton"@) {
            let step0 = types.push(mouse_button_definition());
            assert(types.is_prefix_of(step0)) by {
                assert(types =~= step0.subrange(0, types.len() as int));
            }
        } else {
            assert(types =~= types.subrange(0, types.len() as int));
        }
    }

    proof fn collecting_covers_every_mention(types: Seq<DefinitionModel>) {
        reveal_with_fuel(is_covered, 3);
        if !defines(types, "MouseButton"@) {
            let own = types.push(mouse_button_definition());
            Self::collecting_adds_each_once(types);
            assert(own[types.len() as int] == mouse_button_definition());
            assert(definition_covered(own, mouse_button_definition()));
            assert(own[types.len() as int].name == "MouseButton"@);
        }
    }

    fn describe() -> (schema: TypeSchema) {
        TypeSchema::Named("MouseButton")
    }

    fn collect(types: &mut Vec<TypeDefinition>) {
        let variants: Vec<VariantSchema> = vec![
            plain_variant("Left"),
            plain_variant("Right"),
            plain_variant("Middle"),
        ];
        assert(variant_models(variants@) =~= seq![
            plain("Left"@),
            plain("Right"@),
            plain("Middle"@),
        ]);
        let definition = TypeDefinition { name: "MouseButton", kind: TypeKind::Enum(variants) };
        assert(definition_model(definition) == mouse_button_definition());
        collect_definition(types, definition);
    }
}

/// The definition of [`Modifiers`].
pub open spec fn modifiers_definition() -> DefinitionModel {
    DefinitionModel {
        name: "Modifiers"@,
        kind: KindModel::Struct(
            seq![
                field("control"@, bool::described()),
                field("alt"@, bool::described()),
                field("shift"@, bool::described()),
                field("platform"@, bool::described()),
            ],
        ),
    }
}

impl Describe for Modifiers {
    open spec fn described() -> TypeModel {
        TypeModel::Named("Modifiers"@)
    }

    open spec fn collected(types: Seq<DefinitionModel>) -> Seq<DefinitionModel> {
        if defines(types, "Modifiers"@) {
            types
        } else {
            types.push(modifiers_definition())
        }
    }

    proof fn collecting_adds_each_once(types: Seq<DefinitionModel>) {
        if !defines(types, "Modifiers"@) {
            let step0 = types.push(modifiers_definition());
            assert(types.is_prefix_of(step0)) by {
                assert(types =~= step0.subrange(0, types.len() as int));
            }
        } else {
            assert(types =~= types.subrange(0, types.len() as int));
        }
    }

    proof fn collecting_covers_every_mention(types: Seq<DefinitionModel>) {
        reveal_with_fuel(is_covered, 3);
        if !defines(types, "Modifiers"@) {
            let own = types.push(modifiers_definition());
            Self::collecting_adds_each_once(types);
            assert(own[types.len() as int] == modifiers_definition());
            assert(definition_covered(own, modifiers_definition()));
            assert(own[types.len() as int].name == "Modifiers"@);
        }
    }

    fn describe() -> (schema: TypeSchema) {
        TypeSchema::Named("Modifiers")
    }

    fn collect(types: &mut Vec<TypeDefinition>) {
        let fields: Vec<FieldSchema> = vec![
            field_schema("control", bool::describe()),
            field_schema("alt", bool::describe()),
            field_schema("shift", bool::describe()),
            field_schema("platform", bool::describe()),
        ];
        assert(field_models(fields@) =~= seq![
            field("control"@, bool::described()),
            field("alt"@, bool::described()),
            field("shift"@, bool::described()),
            field("platform"@, bool::described()),
        ]);
        let definition = TypeDefinition { name: "Modifiers", kind: TypeKind::Struct(fields) };
        assert(definition_model(definition) == modifiers_definition());
        collect_definition(types, definition);
    }
}

/// The definition of [`Point`].
pub open spec fn point_definition() -> DefinitionModel {
    DefinitionModel {
        name: "Point"@,
        kind: KindModel::Struct(
            seq![
                field("x"@, Scalar::described()),
                field("y"@, Scalar::described()),
            ],
        ),
    }
}

impl Describe for Point {
    open spec fn described() -> TypeModel {
        TypeModel::Named("Point"@)
    }

    open spec fn collected(types: Seq<DefinitionModel>) -> Seq<DefinitionModel> {
        if defines(types, "Point"@) {
            types
        } else {
            types.push(point_definition())
        }
    }

    proof fn collecting_adds_each_once(types: Seq<DefinitionModel>) {
        if !defines(types, "Point"@) {
            let step0 = types.push(point_definition());
            assert(types.is_prefix_of(step0)) by {
                assert(types =~= step0.subrange(0, types.len() as int));
            }
        } else {
            assert(types =~= types.subrange(0, types.len() as int));
        }
    }

    proof fn collecting_covers_every_mention(types: Seq<DefinitionModel>) {
        reveal_with_fuel(is_covered, 3);
        if !defines(types, "Point"@) {
            let own = types.push(point_definition());
            Self::collecting_adds_each_once(types);
            assert(own[types.len() as int] == point_definition());
            assert(definition_covered(own, point_definition()));
            assert(own[types.len() as int].name == "Point"@);
        }
    }

    fn describe() -> (schema: TypeSchema) {
        TypeSchema::Named("Point")
    }

    fn collect(types: &mut Vec<TypeDefinition>) {
        let fields: Vec<FieldSchema> = vec![
            field_schema("x", Scalar::describe()),
            field_schema("y", Scalar::describe()),
        ];
        assert(field_models(fields@) =~= seq![
            field("x"@, Scalar::described()),
            field("y"@, Scalar::described()),
        ]);
        let definition = TypeDefinition { name: "Point", kind: TypeKind::Struct(fields) };
        assert(definition_model(definition) == point_definition());
        collect_definition(types, definition);
    }
}

/// The definition of [`MouseButtonEvent`].
pub open spec fn mouse_button_event_definition() -> DefinitionModel {
    DefinitionModel {
        name: "MouseButtonEvent"@,
        kind: KindModel::Struct(
            seq![
                field("button"@, MouseButton::described()),
                field("position"@, Point::described()),
                field("modifiers"@, Modifiers::described()),
                field("click_count"@, u32::described()),
            ],
        ),
    }
}

impl Describe for MouseButtonEvent {
    open spec fn described() -> TypeModel {
        TypeModel::Named("MouseButtonEvent"@)
    }

    open spec fn collected(types: Seq<DefinitionModel>) -> Seq<DefinitionModel> {
        if defines(types, "MouseButtonEvent"@) {
            types
        } else {
            let types = types.push(mouse_button_event_definition());
            let types = MouseButton::collected(types);
            let types = Point::collected(types);
            Modifiers::collected(types)
        }
    }

    proof fn collecting_adds_each_once(types: Seq<DefinitionModel>) {
        if !defines(types, "MouseButtonEvent"@) {
            let step0 = types.push(mouse_button_event_definition());
            assert(types.is_prefix_of(step0)) by {
                assert(types =~= step0.subrange(0, types.len() as int));
            }
            MouseButton::collecting_adds_each_once(step0);
            let step1 = MouseButton::collected(step0);
            lemma_prefixes_chain(types, step0, step1);
            Point::collecting_adds_each_once(step1);
            let step2 = Point::collected(step1);
            lemma_prefixes_chain(types, step1, step2);
            Modifiers::collecting_adds_each_once(step2);
            let step3 = Modifiers::collected(step2);
            lemma_prefixes_chain(types, step2, step3);
        } else {
            assert(types =~= types.subrange(0, types.len() as int));
        }
    }

    proof fn collecting_covers_every_mention(types: Seq<DefinitionModel>) {
        reveal_with_fuel(is_covered, 3);
        if !defines(types, "MouseButtonEvent"@) {
            let from = types.len() as int + 1;
            let own = types.push(mouse_button_event_definition());
            MouseButton::collecting_adds_each_once(own);
            MouseButton::collecting_covers_every_mention(own);
            let covered0 = MouseButton::collected(own);
            lemma_coverage_chains(own, covered0, from);
            Point::collecting_adds_each_once(covered0);
            Point::collecting_covers_every_mention(covered0);
            let covered1 = Point::collected(covered0);
            lemma_coverage_chains(covered0, covered1, from);
            lemma_covered_grows(covered0, covered1, MouseButton::described());
            Modifiers::collecting_adds_each_once(covered1);
            Modifiers::collecting_covers_every_mention(covered1);
            let covered2 = Modifiers::collected(covered1);
            lemma_coverage_chains(covered1, covered2, from);
            lemma_covered_grows(covered1, covered2, MouseButton::described());
            lemma_covered_grows(covered1, covered2, Point::described());
            Self::collecting_adds_each_once(types);
            assert(covered2[types.len() as int] == mouse_button_event_definition());
            assert(definition_covered(covered2, mouse_button_event_definition()));
            assert(covered2[types.len() as int].name == "MouseButtonEvent"@);
        }
    }

    fn describe() -> (schema: TypeSchema) {
        TypeSchema::Named("MouseButtonEvent")
    }

    fn collect(types: &mut Vec<TypeDefinition>) {
        let fields: Vec<FieldSchema> = vec![
            field_schema("button", MouseButton::describe()),
            field_schema("position", Point::describe()),
            field_schema("modifiers", Modifiers::describe()),
            field_schema("click_count", u32::describe()),
        ];
        assert(field_models(fields@) =~= seq![
            field("button"@, MouseButton::described()),
            field("position"@, Point::described()),
            field("modifiers"@, Modifiers::described()),
            field("click_count"@, u32::described()),
        ]);
        let definition = TypeDefinition { name: "MouseButtonEvent", kind: TypeKind::Struct(fields) };
        assert(definition_model(definition) == mouse_button_event_definition());
        if collect_definition(types, definition) {
            MouseButton::collect(types);
            Point::collect(types);
            Modifiers::collect(types);
        }
    }
}

/// The definition of [`MouseMoveEvent`].
pub open spec fn mouse_move_event_definition() -> DefinitionModel {
    DefinitionModel {
        name: "MouseMoveEvent"@,
        kind: KindModel::Struct(
            seq![
                field("position"@, Point::described()),
                field("pressed_button"@, Option::<MouseButton>::described()),
                field("modifiers"@, Modifiers::described()),
            ],
        ),
    }
}

impl Describe for MouseMoveEvent {
    open spec fn described() -> TypeModel {
        TypeModel::Named("MouseMoveEvent"@)
    }

    open spec fn collected(types: Seq<DefinitionModel>) -> Seq<DefinitionModel> {
        if defines(types, "MouseMoveEvent"@) {
            types
        } else {
            let types = types.push(mouse_move_event_definition());
            let types = Point::collected(types);
            let types = Option::<MouseButton>::collected(types);
            Modifiers::collected(types)
        }
    }

    proof fn collecting_adds_each_once(types: Seq<DefinitionModel>) {
        if !defines(types, "MouseMoveEvent"@) {
            let step0 = types.push(mouse_move_event_definition());
            assert(types.is_prefix_of(step0)) by {
                assert(types =~= step0.subrange(0, types.len() as int));
            }
            Point::collecting_adds_each_once(step0);
            let step1 = Point::collected(step0);
            lemma_prefixes_chain(types, step0, step1);
            Option::<MouseButton>::collecting_adds_each_once(step1);
            let step2 = Option::<MouseButton>::collected(step1);
            lemma_prefixes_chain(types, step1, step2);
            Modifiers::collecting_adds_each_once(step2);
            let step3 = Modifiers::collected(step2);
            lemma_prefixes_chain(types, step2, step3);
        } else {
            assert(types =~= types.subrange(0, types.len() as int));
        }
    }

    proof fn collecting_covers_every_mention(types: Seq<DefinitionModel>) {
        reveal_with_fuel(is_covered, 3);
        if !defines(types, "MouseMoveEvent"@) {
            let from = types.len() as int + 1;
            let own = types.push(mouse_move_event_definition());
            Point::collecting_adds_each_once(own);
            Point::collecting_covers_every_mention(own);
            let covered0 = Point::collected(own);
            lemma_coverage_chains(own, covered0, from);
            Option::<MouseButton>::collecting_adds_each_once(covered0);
            Option::<MouseButton>::collecting_covers_every_mention(covered0);
            let covered1 = Option::<MouseButton>::collected(covered0);
            lemma_coverage_chains(covered0, covered1, from);
            lemma_covered_grows(covered0, covered1, Point::described());
            Modifiers::collecting_adds_each_once(covered1);
            Modifiers::collecting_covers_every_mention(covered1);
            let covered2 = Modifiers::collected(covered1);
            lemma_coverage_chains(covered1, covered2, from);
            lemma_covered_grows(covered1, covered2, Point::described());
            lemma_covered_grows(covered1, covered2, Option::<MouseButton>::described());
            Self::collecting_adds_each_once(types);
            assert(covered2[types.len() as int] == mouse_move_event_definition());
            assert(definition_covered(covered2, mouse_move_event_definition()));
            assert(covered2[types.len() as int].name == "MouseMoveEvent"@);
        }
    }

    fn describe() -> (schema: TypeSchema) {
        TypeSchema::Named("MouseMoveEvent")
    }

    fn collect(types: &mut Vec<TypeDefinition>) {
        let fields: Vec<FieldSchema> = vec![
            field_schema("position", Point::describe()),
            field_schema("pressed_button", Option::<MouseButton>::describe()),
            field_schema("modifiers", Modifiers::describe()),
        ];
        assert(field_models(fields@) =~= seq![
            field("position"@, Point::described()),
            field("pressed_button"@, Option::<MouseButton>::described()),
            field("modifiers"@, Modifiers::described()),
        ]);
        let definition = TypeDefinition { name: "MouseMoveEvent", kind: TypeKind::Struct(fields) };
        assert(definition_model(definition) == mouse_move_event_definition());
        if collect_definition(types, definition) {
            Point::collect(types);
            Option::<MouseButton>::collect(types);
            Modifiers::collect(types);
        }
    }
}

/// The definition of [`ScrollWheelEvent`].
pub open spec fn scroll_wheel_event_definition() -> DefinitionModel {
    DefinitionModel {
        name: "ScrollWheelEvent"@,
        kind: KindModel::Struct(
            seq![
                field("position"@, Point::described()),
                field("delta_x"@, Scalar::described()),
                field("delta_y"@, Scalar::described()),
                field("precise"@, bool::described()),
                field("modifiers"@, Modifiers::described()),
            ],
        ),
    }
}

impl Describe for ScrollWheelEvent {
    open spec fn described() -> TypeModel {
        TypeModel::Named("ScrollWheelEvent"@)
    }

    open spec fn collected(types: Seq<DefinitionModel>) -> Seq<DefinitionModel> {
        if defines(types, "ScrollWheelEvent"@) {
            types
        } else {
            let types = types.push(scroll_wheel_event_definition());
            let types = Point::collected(types);
            Modifiers::collected(types)
        }
    }

    proof fn collecting_adds_each_once(types: Seq<DefinitionModel>) {
        if !defines(types, "ScrollWheelEvent"@) {
            let step0 = types.push(scroll_wheel_event_definition());
            assert(types.is_prefix_of(step0)) by {
                assert(types =~= step0.subrange(0, types.len() as int));
            }
            Point::collecting_adds_each_once(step0);
            let step1 = Point::collected(step0);
            lemma_prefixes_chain(types, step0, step1);
            Modifiers::collecting_adds_each_once(step1);
            let step2 = Modifiers::collected(step1);
            lemma_prefixes_chain(types, step1, step2);
        } else {
            assert(types =~= types.subrange(0, types.len() as int));
        }
    }

    proof fn collecting_covers_every_mention(types: Seq<DefinitionModel>) {
        reveal_with_fuel(is_covered, 3);
        if !defines(types, "ScrollWheelEvent"@) {
            let from = types.len() as int + 1;
            let own = types.push(scroll_wheel_event_definition());
            Point::collecting_adds_each_once(own);
            Point::collecting_covers_every_mention(own);
            let covered0 = Point::collected(own);
            lemma_coverage_chains(own, covered0, from);
            Modifiers::collecting_adds_each_once(covered0);
            Modifiers::collecting_covers_every_mention(covered0);
            let covered1 = Modifiers::collected(covered0);
            lemma_coverage_chains(covered0, covered1, from);
            lemma_covered_grows(covered0, covered1, Point::described());
            Self::collecting_adds_each_once(types);
            assert(covered1[types.len() as int] == scroll_wheel_event_definition());
            assert(definition_covered(covered1, scroll_wheel_event_definition()));
            assert(covered1[types.len() as int].name == "ScrollWheelEvent"@);
        }
    }

    fn describe() -> (schema: TypeSchema) {
        TypeSchema::Named("ScrollWheelEvent")
    }

    fn collect(types: &mut Vec<TypeDefinition>) {
        let fields: Vec<FieldSchema> = vec![
            field_schema("position", Point::describe()),
            field_schema("delta_x", Scalar::describe()),
            field_schema("delta_y", Scalar::describe()),
            field_schema("precise", bool::describe()),
            field_schema("modifiers", Modifiers::describe()),
        ];
        assert(field_models(fields@) =~= seq![
            field("position"@, Point::described()),
            field("delta_x"@, Scalar::described()),
            field("delta_y"@, Scalar::described()),
            field("precise"@, bool::described()),
            field("modifiers"@, Modifiers::described()),
        ]);
        let definition = TypeDefinition { name: "ScrollWheelEvent", kind: TypeKind::Struct(fields) };
        assert(definition_model(definition) == scroll_wheel_event_definition());
        if collect_definition(types, definition) {
            Point::collect(types);
            Modifiers::collect(types);
        }
    }
}

/// The definition of [`MouseExitEvent`].
pub open spec fn mouse_exit_event_definition() -> DefinitionModel {
    DefinitionModel {
        name: "MouseExitEvent"@,
        kind: KindModel::Struct(
            seq![
                field("position"@, Point::described()),
                field("pressed_button"@, Option::<MouseButton>::described()),
                field("modifiers"@, Modifiers::described()),
            ],
        ),
    }
}

impl Describe for MouseExitEvent {
    open spec fn described() -> TypeModel {
        TypeModel::Named("MouseExitEvent"@)
    }

    open spec fn collected(types: Seq<DefinitionModel>) -> Seq<DefinitionModel> {
        if defines(types, "MouseExitEvent"@) {
            types
        } else {
            let types = types.push(mouse_exit_event_definition());
            let types = Point::collected(types);
            let types = Option::<MouseButton>::collected(types);
            Modifiers::collected(types)
        }
    }

    proof fn collecting_adds_each_once(types: Seq<DefinitionModel>) {
        if !defines(types, "MouseExitEvent"@) {
            let step0 = types.push(mouse_exit_event_definition());
            assert(types.is_prefix_of(step0)) by {
                assert(types =~= step0.subrange(0, types.len() as int));
            }
            Point::collecting_adds_each_once(step0);
            let step1 = Point::collected(step0);
            lemma_prefixes_chain(types, step0, step1);
            Option::<MouseButton>::collecting_adds_each_once(step1);
            let step2 = Option::<MouseButton>::collected(step1);
            lemma_prefixes_chain(types, step1, step2);
            Modifiers::collecting_adds_each_once(step2);
            let step3 = Modifiers::collected(step2);
            lemma_prefixes_chain(types, step2, step3);
        } else {
            assert(types =~= types.subrange(0, types.len() as int));
        }
    }

    proof fn collecting_covers_every_mention(types: Seq<DefinitionModel>) {
        reveal_with_fuel(is_covered, 3);
        if !defines(types, "MouseExitEvent"@) {
            let from = types.len() as int + 1;
            let own = types.push(mouse_exit_event_definition());
            Point::collecting_adds_each_once(own);
            Point::collecting_covers_every_mention(own);
            let covered0 = Point::collected(own);
            lemma_coverage_chains(own, covered0, from);
            Option::<MouseButton>::collecting_adds_each_once(covered0);
            Option::<MouseButton>::collecting_covers_every_mention(covered0);
            let covered1 = Option::<MouseButton>::collected(covered0);
            lemma_coverage_chains(covered0, covered1, from);
            lemma_covered_grows(covered0, covered1, Point::described());
            Modifiers::collecting_adds_each_once(covered1);
            Modifiers::collecting_covers_every_mention(covered1);
            let covered2 = Modifiers::collected(covered1);
            lemma_coverage_chains(covered1, covered2, from);
            lemma_covered_grows(covered1, covered2, Point::described());
            lemma_covered_grows(covered1, covered2, Option::<MouseButton>::described());
            Self::collecting_adds_each_once(types);
            assert(covered2[types.len() as int] == mouse_exit_event_definition());
            assert(definition_covered(covered2, mouse_exit_event_definition()));
            assert(covered2[types.len() as int].name == "MouseExitEvent"@);
        }
    }

    fn describe() -> (schema: TypeSchema) {
        TypeSchema::Named("MouseExitEvent")
    }

    fn collect(types: &mut Vec<TypeDefinition>) {
        let fields: Vec<FieldSchema> = vec![
            field_schema("position", Point::describe()),
            field_schema("pressed_button", Option::<MouseButton>::describe()),
            field_schema("modifiers", Modifiers::describe()),
        ];
        assert(field_models(fields@) =~= seq![
            field("position"@, Point::described()),
            field("pressed_button"@, Option::<MouseButton>::described()),
            field("modifiers"@, Modifiers::described()),
        ]);
        let definition = TypeDefinition { name: "MouseExitEvent", kind: TypeKind::Struct(fields) };
        assert(definition_model(definition) == mouse_exit_event_definition());
        if collect_definition(types, definition) {
            Point::collect(types);
            Option::<MouseButton>::collect(types);
            Modifiers::collect(types);
        }
    }
}

/// The definition of [`MouseEvent`].
pub open spec fn mouse_event_definition() -> DefinitionModel {
    DefinitionModel {
        name: "MouseEvent"@,
        kind: KindModel::Enum(
            seq![
                holding("Down"@, MouseButtonEvent::described()),
                holding("Up"@, MouseButtonEvent::described()),
                holding("Move"@, MouseMoveEvent::described()),
                holding("Scroll"@, ScrollWheelEvent::described()),
                holding("Exited"@, MouseExitEvent::described()),
            ],
        ),
    }
}

impl Describe for MouseEvent {
    open spec fn described() -> TypeModel {
        TypeModel::Named("MouseEvent"@)
    }

    open spec fn collected(types: Seq<DefinitionModel>) -> Seq<DefinitionModel> {
        if defines(types, "MouseEvent"@) {
            types
        } else {
            let types = types.push(mouse_event_definition());
            let types = MouseButtonEvent::collected(types);
            let types = MouseMoveEvent::collected(types);
            let types = ScrollWheelEvent::collected(types);
            MouseExitEvent::collected(types)
        }
    }

    proof fn collecting_adds_each_once(types: Seq<DefinitionModel>) {
        if !defines(types, "MouseEvent"@) {
            let step0 = types.push(mouse_event_definition());
            assert(types.is_prefix_of(step0)) by {
                assert(types =~= step0.subrange(0, types.len() as int));
            }
            MouseButtonEvent::collecting_adds_each_once(step0);
            let step1 = MouseButtonEvent::collected(step0);
            lemma_prefixes_chain(types, step0, step1);
            MouseMoveEvent::collecting_adds_each_once(step1);
            let step2 = MouseMoveEvent::collected(step1);
            lemma_prefixes_chain(types, step1, step2);
            ScrollWheelEvent::collecting_adds_each_once(step2);
            let step3 = ScrollWheelEvent::collected(step2);
            lemma_prefixes_chain(types, step2, step3);
            MouseExitEvent::collecting_adds_each_once(step3);
            let step4 = MouseExitEvent::collected(step3);
            lemma_prefixes_chain(types, step3, step4);
        } else {
            assert(types =~= types.subrange(0, types.len() as int));
        }
    }

    proof fn collecting_covers_every_mention(types: Seq<DefinitionModel>) {
        reveal_with_fuel(is_covered, 3);
        if !defines(types, "MouseEvent"@) {
            let own = types.push(mouse_event_definition());
            lemma_four_are_collected::<
                MouseButtonEvent,
                MouseMoveEvent,
                ScrollWheelEvent,
                MouseExitEvent,
            >(own);
            let covered = Self::collected(types);
            assert(covered.subrange(0, own.len() as int)[types.len() as int]
                == mouse_event_definition());
            assert(definition_covered(covered, mouse_event_definition()));
            assert(covered[types.len() as int].name == "MouseEvent"@);
        }
    }

    fn describe() -> (schema: TypeSchema) {
        TypeSchema::Named("MouseEvent")
    }

    fn collect(types: &mut Vec<TypeDefinition>) {
        let variants: Vec<VariantSchema> = vec![
            holding_variant("Down", MouseButtonEvent::describe()),
            holding_variant("Up", MouseButtonEvent::describe()),
            holding_variant("Move", MouseMoveEvent::describe()),
            holding_variant("Scroll", ScrollWheelEvent::describe()),
            holding_variant("Exited", MouseExitEvent::describe()),
        ];
        assert(variant_models(variants@) =~= seq![
            holding("Down"@, MouseButtonEvent::described()),
            holding("Up"@, MouseButtonEvent::described()),
            holding("Move"@, MouseMoveEvent::described()),
            holding("Scroll"@, ScrollWheelEvent::described()),
            holding("Exited"@, MouseExitEvent::described()),
        ]);
        let definition = TypeDefinition { name: "MouseEvent", kind: TypeKind::Enum(variants) };
        assert(definition_model(definition) == mouse_event_definition());
        if collect_definition(types, definition) {
            MouseButtonEvent::collect(types);
            MouseMoveEvent::collect(types);
            ScrollWheelEvent::collect(types);
            MouseExitEvent::collect(types);
        }
    }
}

/// The definition of [`Keystroke`].
pub open spec fn keystroke_definition() -> DefinitionModel {
    DefinitionModel {
        name: "Keystroke"@,
        kind: KindModel::Struct(
            seq![
                field("modifiers"@, Modifiers::described()),
                field("key"@, String::described()),
                field("key_char"@, Option::<String>::described()),
            ],
        ),
    }
}

impl Describe for Keystroke {
    open spec fn described() -> TypeModel {
        TypeModel::Named("Keystroke"@)
    }

    open spec fn collected(types: Seq<DefinitionModel>) -> Seq<DefinitionModel> {
        if defines(types, "Keystroke"@) {
            types
        } else {
            let types = types.push(keystroke_definition());
            Modifiers::collected(types)
        }
    }

    proof fn collecting_adds_each_once(types: Seq<DefinitionModel>) {
        if !defines(types, "Keystroke"@) {
            let step0 = types.push(keystroke_definition());
            assert(types.is_prefix_of(step0)) by {
                assert(types =~= step0.subrange(0, types.len() as int));
            }
            Modifiers::collecting_adds_each_once(step0);
            let step1 = Modifiers::collected(step0);
            lemma_prefixes_chain(types, step0, step1);
        } else {
            assert(types =~= types.subrange(0, types.len() as int));
        }
    }

    proof fn collecting_covers_every_mention(types: Seq<DefinitionModel>) {
        reveal_with_fuel(is_covered, 3);
        if !defines(types, "Keystroke"@) {
            let from = types.len() as int + 1;
            let own = types.push(keystroke_definition());
            Modifiers::collecting_adds_each_once(own);
            Modifiers::collecting_covers_every_mention(own);
            let covered0 = Modifiers::collected(own);
            lemma_coverage_chains(own, covered0, from);
            Self::collecting_adds_each_once(types);
            assert(covered0[types.len() as int] == keystroke_definition());
            assert(definition_covered(covered0, keystroke_definition()));
            assert(covered0[types.len() as int].name == "Keystroke"@);
        }
    }

    fn describe() -> (schema: TypeSchema) {
        TypeSchema::Named("Keystroke")
    }

    fn collect(types: &mut Vec<TypeDefinition>) {
        let fields: Vec<FieldSchema> = vec![
            field_schema("modifiers", Modifiers::describe()),
            field_schema("key", String::describe()),
            field_schema("key_char", Option::<String>::describe()),
        ];
        assert(field_models(fields@) =~= seq![
            field("modifiers"@, Modifiers::described()),
            field("key"@, String::described()),
            field("key_char"@, Option::<String>::described()),
        ]);
        let definition = TypeDefinition { name: "Keystroke", kind: TypeKind::Struct(fields) };
        assert(definition_model(definition) == keystroke_definition());
        if collect_definition(types, definition) {
            Modifiers::collect(types);
        }
    }
}

/// The definition of [`KeyEvent`].
pub open spec fn key_event_definition() -> DefinitionModel {
    DefinitionModel {
        name: "KeyEvent"@,
        kind: KindModel::Enum(
            seq![
                record(
                    "Down"@,
                    seq![
                        field("keystroke"@, Keystroke::described()),
                        field("is_held"@, bool::described()),
                    ],
                ),
                record("Up"@, seq![field("keystroke"@, Keystroke::described())]),
                record("ModifiersChanged"@, seq![field("modifiers"@, Modifiers::described())]),
            ],
        ),
    }
}

impl Describe for KeyEvent {
    open spec fn described() -> TypeModel {
        TypeModel::Named("KeyEvent"@)
    }

    open spec fn collected(types: Seq<DefinitionModel>) -> Seq<DefinitionModel> {
        if defines(types, "KeyEvent"@) {
            types
        } else {
            let types = types.push(key_event_definition());
            let types = Keystroke::collected(types);
            Modifiers::collected(types)
        }
    }

    proof fn collecting_adds_each_once(types: Seq<DefinitionModel>) {
        if !defines(types, "KeyEvent"@) {
            let step0 = types.push(key_event_definition());
            assert(types.is_prefix_of(step0)) by {
                assert(types =~= step0.subrange(0, types.len() as int));
            }
            Keystroke::collecting_adds_each_once(step0);
            let step1 = Keystroke::collected(step0);
            lemma_prefixes_chain(types, step0, step1);
            Modifiers::collecting_adds_each_once(step1);
            let step2 = Modifiers::collected(step1);
            lemma_prefixes_chain(types, step1, step2);
        } else {
            assert(types =~= types.subrange(0, types.len() as int));
        }
    }

    proof fn collecting_covers_every_mention(types: Seq<DefinitionModel>) {
        reveal_with_fuel(is_covered, 3);
        if !defines(types, "KeyEvent"@) {
            let from = types.len() as int + 1;
            let own = types.push(key_event_definition());
            Keystroke::collecting_adds_each_once(own);
            Keystroke::collecting_covers_every_mention(own);
            let covered0 = Keystroke::collected(own);
            lemma_coverage_chains(own, covered0, from);
            Modifiers::collecting_adds_each_once(covered0);
            Modifiers::collecting_covers_every_mention(covered0);
            let covered1 = Modifiers::collected(covered0);
            lemma_coverage_chains(covered0, covered1, from);
            lemma_covered_grows(covered0, covered1, Keystroke::described());
            Self::collecting_adds_each_once(types);
            assert(covered1[types.len() as int] == key_event_definition());
            assert(definition_covered(covered1, key_event_definition()));
            assert(covered1[types.len() as int].name == "KeyEvent"@);
        }
    }

    fn describe() -> (schema: TypeSchema) {
        TypeSchema::Named("KeyEvent")
    }

    fn collect(types: &mut Vec<TypeDefinition>) {
        let down: Vec<FieldSchema> = vec![
            field_schema("keystroke", Keystroke::describe()),
            field_schema("is_held", bool::describe()),
        ];
        assert(field_models(down@) =~= seq![
            field("keystroke"@, Keystroke::described()),
            field("is_held"@, bool::described()),
        ]);
        let up: Vec<FieldSchema> = vec![
            field_schema("keystroke", Keystroke::describe()),
        ];
        assert(field_models(up@) =~= seq![field("keystroke"@, Keystroke::described())]);
        let modifiers_changed: Vec<FieldSchema> = vec![
            field_schema("modifiers", Modifiers::describe()),
        ];
        assert(field_models(modifiers_changed@) =~= seq![field("modifiers"@, Modifiers::described())]);
        let variants: Vec<VariantSchema> = vec![
            record_variant("Down", down),
            record_variant("Up", up),
            record_variant("ModifiersChanged", modifiers_changed),
        ];
        assert(variant_models(variants@) =~= seq![
            record(
                "Down"@,
                seq![
                    field("keystroke"@, Keystroke::described()),
                    field("is_held"@, bool::described()),
                ],
            ),
            record("Up"@, seq![field("keystroke"@, Keystroke::described())]),
            record("ModifiersChanged"@, seq![field("modifiers"@, Modifiers::described())]),
        ]);
        let definition = TypeDefinition { name: "KeyEvent", kind: TypeKind::Enum(variants) };
        assert(definition_model(definition) == key_event_definition());
        if collect_definition(types, definition) {
            Keystroke::collect(types);
            Modifiers::collect(types);
        }
    }
}

/// The definition of [`Cursor`].
pub open spec fn cursor_definition() -> DefinitionModel {
    DefinitionModel {
        name: "Cursor"@,
        kind: KindModel::Enum(
            seq![
                plain("Arrow"@),
                plain("IBeam"@),
                plain("Crosshair"@),
                plain("ClosedHand"@),
                plain("OpenHand"@),
                plain("PointingHand"@),
                plain("ResizeLeftRight"@),
                plain("ResizeUpDown"@),
                plain("OperationNotAllowed"@),
            ],
        ),
    }
}

impl Describe for Cursor {
    open spec fn described() -> TypeModel {
        TypeModel::Named("Cursor"@)
    }

    open spec fn collected(types: Seq<DefinitionModel>) -> Seq<DefinitionModel> {
        if defines(types, "Cursor"@) {
            types
        } else {
            types.push(cursor_definition())
        }
    }

    proof fn collecting_adds_each_once(types: Seq<DefinitionModel>) {
        if !defines(types, "Cursor"@) {
            let step0 = types.push(cursor_definition());
            assert(types.is_prefix_of(step0)) by {
                assert(types =~= step0.subrange(0, types.len() as int));
            }
        } else {
            assert(types =~= types.subrange(0, types.len() as int));
        }
    }

    proof fn collecting_covers_every_mention(types: Seq<DefinitionModel>) {
        reveal_with_fuel(is_covered, 3);
        if !defines(types, "Cursor"@) {
            let own = types.push(cursor_definition());
            Self::collecting_adds_each_once(types);
            assert(own[types.len() as int] == cursor_definition());
            assert(definition_covered(own, cursor_definition()));
            assert(own[types.len() as int].name == "Cursor"@);
        }
    }

    fn describe() -> (schema: TypeSchema) {
        TypeSchema::Named("Cursor")
    }

    fn collect(types: &mut Vec<TypeDefinition>) {
        let variants: Vec<VariantSchema> = vec![
            plain_variant("Arrow"),
            plain_variant("IBeam"),
            plain_variant("Crosshair"),
            plain_variant("ClosedHand"),
            plain_variant("OpenHand"),
            plain_variant("PointingHand"),
            plain_variant("ResizeLeftRight"),
            plain_variant("ResizeUpDown"),
            plain_variant("OperationNotAllowed"),
        ];
        assert(variant_models(variants@) =~= seq![
            plain("Arrow"@),
            plain("IBeam"@),
            plain("Crosshair"@),
            plain("ClosedHand"@),
            plain("OpenHand"@),
            plain("PointingHand"@),
            plain("ResizeLeftRight"@),
            plain("ResizeUpDown"@),
            plain("OperationNotAllowed"@),
        ]);
        let definition = TypeDefinition { name: "Cursor", kind: TypeKind::Enum(variants) };
        assert(definition_model(definition) == cursor_definition());
        collect_definition(types, definition);
    }
}

/// The definition of [`ClipboardChanged`].
pub open spec fn clipboard_changed_definition() -> DefinitionModel {
    DefinitionModel {
        name: "ClipboardChanged"@,
        kind: KindModel::Struct(
            seq![
                field("text"@, Option::<String>::described()),
            ],
        ),
    }
}

impl Describe for ClipboardChanged {
    open spec fn described() -> TypeModel {
        TypeModel::Named("ClipboardChanged"@)
    }

    open spec fn collected(types: Seq<DefinitionModel>) -> Seq<DefinitionModel> {
        if defines(types, "ClipboardChanged"@) {
            types
        } else {
            types.push(clipboard_changed_definition())
        }
    }

    proof fn collecting_adds_each_once(types: Seq<DefinitionModel>) {
        if !defines(types, "ClipboardChanged"@) {
            let step0 = types.push(clipboard_changed_definition());
            assert(types.is_prefix_of(step0)) by {
                assert(types =~= step0.subrange(0, types.len() as int));
            }
        } else {
            assert(types =~= types.subrange(0, types.len() as int));
        }
    }

    proof fn collecting_covers_every_mention(types: Seq<DefinitionModel>) {
        reveal_with_fuel(is_covered, 3);
        if !defines(types, "ClipboardChanged"@) {
            let own = types.push(clipboard_changed_definition());
            Self::collecting_adds_each_once(types);
            assert(own[types.len() as int] == clipboard_changed_definition());
            assert(definition_covered(own, clipboard_changed_definition()));
            assert(own[types.len() as int].name == "ClipboardChanged"@);
        }
    }

    fn describe() -> (schema: TypeSchema) {
        TypeSchema::Named("ClipboardChanged")
    }

    fn collect(types: &mut Vec<TypeDefinition>) {
        let fields: Vec<FieldSchema> = vec![
            field_schema("text", Option::<String>::describe()),
        ];
        assert(field_models(fields@) =~= seq![
            field("text"@, Option::<String>::described()),
        ]);
        let definition = TypeDefinition { name: "ClipboardChanged", kind: TypeKind::Struct(fields) };
        assert(definition_model(definition) == clipboard_changed_definition());
        collect_definition(types, definition);
    }
}

/// The definition of [`Milestone`].
pub open spec fn milestone_definition() -> DefinitionModel {
    DefinitionModel {
        name: "Milestone"@,
        kind: KindModel::Struct(
            seq![
                field("clicks"@, u32::described()),
            ],
        ),
    }
}

impl Describe for Milestone {
    open spec fn described() -> TypeModel {
        TypeModel::Named("Milestone"@)
    }

    open spec fn collected(types: Seq<DefinitionModel>) -> Seq<DefinitionModel> {
        if defines(types, "Milestone"@) {
            types
        } else {
            types.push(milestone_definition())
        }
    }

    proof fn collecting_adds_each_once(types: Seq<DefinitionModel>) {
        if !defines(types, "Milestone"@) {
            let step0 = types.push(milestone_definition());
            assert(types.is_prefix_of(step0)) by {
                assert(types =~= step0.subrange(0, types.len() as int));
            }
        } else {
            assert(types =~= types.subrange(0, types.len() as int));
        }
    }

    proof fn collecting_covers_every_mention(types: Seq<DefinitionModel>) {
        reveal_with_fuel(is_covered, 3);
        if !defines(types, "Milestone"@) {
            let own = types.push(milestone_definition());
            Self::collecting_adds_each_once(types);
            assert(own[types.len() as int] == milestone_definition());
            assert(definition_covered(own, milestone_definition()));
            assert(own[types.len() as int].name == "Milestone"@);
        }
    }

    fn describe() -> (schema: TypeSchema) {
        TypeSchema::Named("Milestone")
    }

    fn collect(types: &mut Vec<TypeDefinition>) {
        let fields: Vec<FieldSchema> = vec![
            field_schema("clicks", u32::describe()),
        ];
        assert(field_models(fields@) =~= seq![
            field("clicks"@, u32::described()),
        ]);
        let definition = TypeDefinition { name: "Milestone", kind: TypeKind::Struct(fields) };
        assert(definition_model(definition) == milestone_definition());
        collect_definition(types, definition);
    }
}

/// One entry in the plugin's published command palette: a label the host can render, and the
/// capability to invoke the command. The ref is the authority: holding the list is holding
/// the right to run every command in it.
#[derive(Debug)]
pub struct PaletteEntry {
    pub label: String,
    pub command: Ref<CommandApi>,
}

/// The definition of [`PaletteEntry`].
pub open spec fn palette_entry_definition() -> DefinitionModel {
    DefinitionModel {
        name: "PaletteEntry"@,
        kind: KindModel::Struct(
            seq![
                field("label"@, String::described()),
                field("command"@, Ref::<CommandApi>::described()),
            ],
        ),
    }
}

impl Describe for PaletteEntry {
    open spec fn described() -> TypeModel {
        TypeModel::Named("PaletteEntry"@)
    }

    open spec fn collected(types: Seq<DefinitionModel>) -> Seq<DefinitionModel> {
        if defines(types, "PaletteEntry"@) {
            types
        } else {
            types.push(palette_entry_definition())
        }
    }

    proof fn collecting_adds_each_once(types: Seq<DefinitionModel>) {
        if !defines(types, "PaletteEntry"@) {
            let step0 = types.push(palette_entry_definition());
            assert(types.is_prefix_of(step0)) by {
                assert(types =~= step0.subrange(0, types.len() as int));
            }
        } else {
            assert(types =~= types.subrange(0, types.len() as int));
        }
    }

    proof fn collecting_covers_every_mention(types: Seq<DefinitionModel>) {
        reveal_with_fuel(is_covered, 3);
        if !defines(types, "PaletteEntry"@) {
            let own = types.push(palette_entry_definition());
            Self::collecting_adds_each_once(types);
            assert(own[types.len() as int] == palette_entry_definition());
            assert(definition_covered(own, palette_entry_definition()));
            assert(own[types.len() as int].name == "PaletteEntry"@);
        }
    }

    fn describe() -> (schema: TypeSchema) {
        TypeSchema::Named("PaletteEntry")
    }

    fn collect(types: &mut Vec<TypeDefinition>) {
        let fields: Vec<FieldSchema> = vec![
            field_schema("label", String::describe()),
            field_schema("command", Ref::<CommandApi>::describe()),
        ];
        assert(field_models(fields@) =~= seq![
            field("label"@, String::described()),
            field("command"@, Ref::<CommandApi>::described()),
        ]);
        let definition = TypeDefinition { name: "PaletteEntry", kind: TypeKind::Struct(fields) };
        assert(definition_model(definition) == palette_entry_definition());
        collect_definition(types, definition);
    }
}

/// The thing drawing on a surface: it is told where the slot is, and gets the input for it.
#[derive(Debug)]
pub struct ViewApi;

impl Interface for ViewApi {
    open spec fn named() -> Seq<char> {
        "ViewApi"@
    }

    fn name() -> (name: &'static str) {
        "ViewApi"
    }

    open spec fn interface() -> SchemaModel {
        SchemaModel {
            name: "ViewApi"@,
            methods: seq![
                method_model(
                    "resize"@,
                    seq![field("geometry"@, Geometry::described())],
                    <()>::described(),
                ),
                method_model(
                    "mouse"@,
                    seq![field("event"@, MouseEvent::described())],
                    <()>::described(),
                ),
                method_model(
                    "key"@,
                    seq![field("event"@, KeyEvent::described())],
                    <()>::described(),
                ),
            ],
            events: Seq::empty(),
            types: {
                let types = Seq::empty();
                let types = Geometry::collected(types);
                let types = MouseEvent::collected(types);
                KeyEvent::collected(types)
            },
        }
    }

    proof fn types_are_listed_once() {
        let step0 = Seq::<DefinitionModel>::empty();
        Geometry::collecting_adds_each_once(step0);
        let step1 = Geometry::collected(step0);
        MouseEvent::collecting_adds_each_once(step1);
        let step2 = MouseEvent::collected(step1);
        KeyEvent::collecting_adds_each_once(step2);
    }

    proof fn every_mention_is_listed() {
        reveal_with_fuel(is_covered, 3);
        let none = Seq::<DefinitionModel>::empty();
        lemma_three_are_collected::<Geometry, MouseEvent, KeyEvent>(none);
        assert(schema_covered(Self::interface()));
    }

    fn schema() -> (schema: Schema) {
        let resize_arguments: Vec<ArgumentSchema> = vec![
            ArgumentSchema { name: "geometry", ty: Geometry::describe() },
        ];
        assert(argument_models(resize_arguments@) =~= seq![field("geometry"@, Geometry::described())]);
        let mouse_arguments: Vec<ArgumentSchema> = vec![
            ArgumentSchema { name: "event", ty: MouseEvent::describe() },
        ];
        assert(argument_models(mouse_arguments@) =~= seq![field("event"@, MouseEvent::described())]);
        let key_arguments: Vec<ArgumentSchema> = vec![
            ArgumentSchema { name: "event", ty: KeyEvent::describe() },
        ];
        assert(argument_models(key_arguments@) =~= seq![field("event"@, KeyEvent::described())]);
        let methods: Vec<MethodSchema> = vec![
            method_schema("resize", resize_arguments, <()>::describe()),
            method_schema("mouse", mouse_arguments, <()>::describe()),
            method_schema("key", key_arguments, <()>::describe()),
        ];
        assert(method_schema_models(methods@) =~= Self::interface().methods);
        let events: Vec<EventSchema> = Vec::new();
        assert(event_models(events@) =~= Self::interface().events);
        let mut types: Vec<TypeDefinition> = Vec::new();
        assert(definition_models(types@) =~= Seq::<DefinitionModel>::empty());
        Geometry::collect(&mut types);
        MouseEvent::collect(&mut types);
        KeyEvent::collect(&mut types);
        Schema { name: "ViewApi", methods, events, types }
    }
}

/// A place pixels go: a view is attached to it, and says which cursor to show.
#[derive(Debug)]
pub struct SurfaceApi;

impl Interface for SurfaceApi {
    open spec fn named() -> Seq<char> {
        "SurfaceApi"@
    }

    fn name() -> (name: &'static str) {
        "SurfaceApi"
    }

    open spec fn interface() -> SchemaModel {
        SchemaModel {
            name: "SurfaceApi"@,
            methods: seq![
                method_model(
                    "attach"@,
                    seq![field("view"@, Ref::<ViewApi>::described())],
                    <()>::described(),
                ),
                method_model(
                    "set_cursor"@,
                    seq![field("cursor"@, Cursor::described())],
                    <()>::described(),
                ),
            ],
            events: Seq::empty(),
            types: {
                let types = Seq::empty();
                Cursor::collected(types)
            },
        }
    }

    proof fn types_are_listed_once() {
        let step0 = Seq::<DefinitionModel>::empty();
        Cursor::collecting_adds_each_once(step0);
    }

    proof fn every_mention_is_listed() {
        reveal_with_fuel(is_covered, 3);
        let from = 0int;
        let none = Seq::<DefinitionModel>::empty();
        Cursor::collecting_adds_each_once(none);
        Cursor::collecting_covers_every_mention(none);
        let covered0 = Cursor::collected(none);
        lemma_coverage_chains(none, covered0, from);
        assert(Self::interface().types == covered0);
        assert(schema_covered(Self::interface()));
    }

    fn schema() -> (schema: Schema) {
        let attach_arguments: Vec<ArgumentSchema> = vec![
            ArgumentSchema { name: "view", ty: Ref::<ViewApi>::describe() },
        ];
        assert(argument_models(attach_arguments@) =~= seq![field("view"@, Ref::<ViewApi>::described())]);
        let set_cursor_arguments: Vec<ArgumentSchema> = vec![
            ArgumentSchema { name: "cursor", ty: Cursor::describe() },
        ];
        assert(argument_models(set_cursor_arguments@) =~= seq![field("cursor"@, Cursor::described())]);
        let methods: Vec<MethodSchema> = vec![
            method_schema("attach", attach_arguments, <()>::describe()),
            method_schema("set_cursor", set_cursor_arguments, <()>::describe()),
        ];
        assert(method_schema_models(methods@) =~= Self::interface().methods);
        let events: Vec<EventSchema> = Vec::new();
        assert(event_models(events@) =~= Self::interface().events);
        let mut types: Vec<TypeDefinition> = Vec::new();
        assert(definition_models(types@) =~= Seq::<DefinitionModel>::empty());
        Cursor::collect(&mut types);
        Schema { name: "SurfaceApi", methods, events, types }
    }
}

/// A clipboard: text in, text out, and a change event.
#[derive(Debug)]
pub struct ClipboardApi;

impl Interface for ClipboardApi {
    open spec fn named() -> Seq<char> {
        "ClipboardApi"@
    }

    fn name() -> (name: &'static str) {
        "ClipboardApi"
    }

    open spec fn interface() -> SchemaModel {
        SchemaModel {
            name: "ClipboardApi"@,
            methods: seq![
                method_model(
                    "read"@,
                    Seq::empty(),
                    Option::<String>::described(),
                ),
                method_model(
                    "write"@,
                    seq![field("text"@, String::described())],
                    <()>::described(),
                ),
            ],
            events: seq![field("clipboard_changed"@, ClipboardChanged::described())],
            types: {
                let types = Seq::empty();
                ClipboardChanged::collected(types)
            },
        }
    }

    proof fn types_are_listed_once() {
        let step0 = Seq::<DefinitionModel>::empty();
        ClipboardChanged::collecting_adds_each_once(step0);
    }

    proof fn every_mention_is_listed() {
        reveal_with_fuel(is_covered, 3);
        let from = 0int;
        let none = Seq::<DefinitionModel>::empty();
        ClipboardChanged::collecting_adds_each_once(none);
        ClipboardChanged::collecting_covers_every_mention(none);
        let covered0 = ClipboardChanged::collected(none);
        lemma_coverage_chains(none, covered0, from);
        assert(Self::interface().types == covered0);
        assert(schema_covered(Self::interface()));
    }

    fn schema() -> (schema: Schema) {
        let read_arguments: Vec<ArgumentSchema> = Vec::new();
        assert(argument_models(read_arguments@) =~= Seq::<FieldModel>::empty());
        let write_arguments: Vec<ArgumentSchema> = vec![
            ArgumentSchema { name: "text", ty: String::describe() },
        ];
        assert(argument_models(write_arguments@) =~= seq![field("text"@, String::described())]);
        let methods: Vec<MethodSchema> = vec![
            method_schema("read", read_arguments, Option::<String>::describe()),
            method_schema("write", write_arguments, <()>::describe()),
        ];
        assert(method_schema_models(methods@) =~= Self::interface().methods);
        let events: Vec<EventSchema> = vec![
            EventSchema { name: "clipboard_changed", ty: ClipboardChanged::describe() },
        ];
        assert(event_models(events@) =~= Self::interface().events);
        let mut types: Vec<TypeDefinition> = Vec::new();
        assert(definition_models(types@) =~= Seq::<DefinitionModel>::empty());
        ClipboardChanged::collect(&mut types);
        Schema { name: "ClipboardApi", methods, events, types }
    }
}

/// The root of a script runtime: a script is loaded into it, in place of the one before. Every
/// other method of that root is answered by the script itself.
#[derive(Debug)]
pub struct JsRuntimeApi;

impl Interface for JsRuntimeApi {
    open spec fn named() -> Seq<char> {
        "JsRuntimeApi"@
    }

    fn name() -> (name: &'static str) {
        "JsRuntimeApi"
    }

    open spec fn interface() -> SchemaModel {
        SchemaModel {
            name: "JsRuntimeApi"@,
            methods: seq![
                method_model(
                    "load"@,
                    seq![field("source"@, String::described())],
                    Option::<String>::described(),
                ),
            ],
            events: Seq::empty(),
            types: Seq::empty(),
        }
    }

    proof fn types_are_listed_once() {
    }

    proof fn every_mention_is_listed() {
        reveal_with_fuel(is_covered, 3);
        assert(schema_covered(Self::interface()));
    }

    fn schema() -> (schema: Schema) {
        let load_arguments: Vec<ArgumentSchema> = vec![
            ArgumentSchema { name: "source", ty: String::describe() },
        ];
        assert(argument_models(load_arguments@) =~= seq![field("source"@, String::described())]);
        let methods: Vec<MethodSchema> = vec![
            method_schema("load", load_arguments, Option::<String>::describe()),
        ];
        assert(method_schema_models(methods@) =~= Self::interface().methods);
        let events: Vec<EventSchema> = Vec::new();
        assert(event_models(events@) =~= Self::interface().events);
        let types: Vec<TypeDefinition> = Vec::new();
        assert(definition_models(types@) =~= Seq::<DefinitionModel>::empty());
        Schema { name: "JsRuntimeApi", methods, events, types }
    }
}

/// The click counter of the demonstration.
#[derive(Debug)]
pub struct CounterApi;

impl Interface for CounterApi {
    open spec fn named() -> Seq<char> {
        "CounterApi"@
    }

    fn name() -> (name: &'static str) {
        "CounterApi"
    }

    open spec fn interface() -> SchemaModel {
        SchemaModel {
            name: "CounterApi"@,
            methods: seq![
                method_model(
                    "increment"@,
                    seq![field("by"@, u32::described())],
                    u32::described(),
                ),
                method_model(
                    "clicks"@,
                    Seq::empty(),
                    u32::described(),
                ),
            ],
            events: seq![field("milestone"@, Milestone::described())],
            types: {
                let types = Seq::empty();
                Milestone::collected(types)
            },
        }
    }

    proof fn types_are_listed_once() {
        let step0 = Seq::<DefinitionModel>::empty();
        Milestone::collecting_adds_each_once(step0);
    }

    proof fn every_mention_is_listed() {
        reveal_with_fuel(is_covered, 3);
        let from = 0int;
        let none = Seq::<DefinitionModel>::empty();
        Milestone::collecting_adds_each_once(none);
        Milestone::collecting_covers_every_mention(none);
        let covered0 = Milestone::collected(none);
        lemma_coverage_chains(none, covered0, from);
        assert(Self::interface().types == covered0);
        assert(schema_covered(Self::interface()));
    }

    fn schema() -> (schema: Schema) {
        let increment_arguments: Vec<ArgumentSchema> = vec![
            ArgumentSchema { name: "by", ty: u32::describe() },
        ];
        assert(argument_models(increment_arguments@) =~= seq![field("by"@, u32::described())]);
        let clicks_arguments: Vec<ArgumentSchema> = Vec::new();
        assert(argument_models(clicks_arguments@) =~= Seq::<FieldModel>::empty());
        let methods: Vec<MethodSchema> = vec![
            method_schema("increment", increment_arguments, u32::describe()),
            method_schema("clicks", clicks_arguments, u32::describe()),
        ];
        assert(method_schema_models(methods@) =~= Self::interface().methods);
        let events: Vec<EventSchema> = vec![
            EventSchema { name: "milestone", ty: Milestone::describe() },
        ];
        assert(event_models(events@) =~= Self::interface().events);
        let mut types: Vec<TypeDefinition> = Vec::new();
        assert(definition_models(types@) =~= Seq::<DefinitionModel>::empty());
        Milestone::collect(&mut types);
        Schema { name: "CounterApi", methods, events, types }
    }
}

/// The text of the plugin's input line.
#[derive(Debug)]
pub struct TextApi;

impl Interface for TextApi {
    open spec fn named() -> Seq<char> {
        "TextApi"@
    }

    fn name() -> (name: &'static str) {
        "TextApi"
    }

    open spec fn interface() -> SchemaModel {
        SchemaModel {
            name: "TextApi"@,
            methods: seq![
                method_model(
                    "text"@,
                    Seq::empty(),
                    String::described(),
                ),
            ],
            events: Seq::empty(),
            types: Seq::empty(),
        }
    }

    proof fn types_are_listed_once() {
    }

    proof fn every_mention_is_listed() {
        reveal_with_fuel(is_covered, 3);
        assert(schema_covered(Self::interface()));
    }

    fn schema() -> (schema: Schema) {
        let text_arguments: Vec<ArgumentSchema> = Vec::new();
        assert(argument_models(text_arguments@) =~= Seq::<FieldModel>::empty());
        let methods: Vec<MethodSchema> = vec![
            method_schema("text", text_arguments, String::describe()),
        ];
        assert(method_schema_models(methods@) =~= Self::interface().methods);
        let events: Vec<EventSchema> = Vec::new();
        assert(event_models(events@) =~= Self::interface().events);
        let types: Vec<TypeDefinition> = Vec::new();
        assert(definition_models(types@) =~= Seq::<DefinitionModel>::empty());
        Schema { name: "TextApi", methods, events, types }
    }
}

/// A command the host can invoke on the plugin; it is found through [`PaletteApi`].
#[derive(Debug)]
pub struct CommandApi;

impl Interface for CommandApi {
    open spec fn named() -> Seq<char> {
        "CommandApi"@
    }

    fn name() -> (name: &'static str) {
        "CommandApi"
    }

    open spec fn interface() -> SchemaModel {
        SchemaModel {
            name: "CommandApi"@,
            methods: seq![
                method_model(
                    "invoke"@,
                    Seq::empty(),
                    String::described(),
                ),
            ],
            events: Seq::empty(),
            types: Seq::empty(),
        }
    }

    proof fn types_are_listed_once() {
    }

    proof fn every_mention_is_listed() {
        reveal_with_fuel(is_covered, 3);
        assert(schema_covered(Self::interface()));
    }

    fn schema() -> (schema: Schema) {
        let invoke_arguments: Vec<ArgumentSchema> = Vec::new();
        assert(argument_models(invoke_arguments@) =~= Seq::<FieldModel>::empty());
        let methods: Vec<MethodSchema> = vec![
            method_schema("invoke", invoke_arguments, String::describe()),
        ];
        assert(method_schema_models(methods@) =~= Self::interface().methods);
        let events: Vec<EventSchema> = Vec::new();
        assert(event_models(events@) =~= Self::interface().events);
        let types: Vec<TypeDefinition> = Vec::new();
        assert(definition_models(types@) =~= Seq::<DefinitionModel>::empty());
        Schema { name: "CommandApi", methods, events, types }
    }
}

/// The registry of commands the host renders.
#[derive(Debug)]
pub struct PaletteApi;

impl Interface for PaletteApi {
    open spec fn named() -> Seq<char> {
        "PaletteApi"@
    }

    fn name() -> (name: &'static str) {
        "PaletteApi"
    }

    open spec fn interface() -> SchemaModel {
        SchemaModel {
            name: "PaletteApi"@,
            methods: seq![
                method_model(
                    "commands"@,
                    Seq::empty(),
                    Vec::<PaletteEntry>::described(),
                ),
            ],
            events: Seq::empty(),
            types: {
                let types = Seq::empty();
                Vec::<PaletteEntry>::collected(types)
            },
        }
    }

    proof fn types_are_listed_once() {
        let step0 = Seq::<DefinitionModel>::empty();
        Vec::<PaletteEntry>::collecting_adds_each_once(step0);
    }

    proof fn every_mention_is_listed() {
        reveal_with_fuel(is_covered, 3);
        let from = 0int;
        let none = Seq::<DefinitionModel>::empty();
        Vec::<PaletteEntry>::collecting_adds_each_once(none);
        Vec::<PaletteEntry>::collecting_covers_every_mention(none);
        let covered0 = Vec::<PaletteEntry>::collected(none);
        lemma_coverage_chains(none, covered0, from);
        assert(Self::interface().types == covered0);
        assert(schema_covered(Self::interface()));
    }

    fn schema() -> (schema: Schema) {
        let commands_arguments: Vec<ArgumentSchema> = Vec::new();
        assert(argument_models(commands_arguments@) =~= Seq::<FieldModel>::empty());
        let methods: Vec<MethodSchema> = vec![
            method_schema("commands", commands_arguments, Vec::<PaletteEntry>::describe()),
        ];
        assert(method_schema_models(methods@) =~= Self::interface().methods);
        let events: Vec<EventSchema> = Vec::new();
        assert(event_models(events@) =~= Self::interface().events);
        let mut types: Vec<TypeDefinition> = Vec::new();
        assert(definition_models(types@) =~= Seq::<DefinitionModel>::empty());
        Vec::<PaletteEntry>::collect(&mut types);
        Schema { name: "PaletteApi", methods, events, types }
    }
}

/// The service of the host the plugin drives.
#[derive(Debug)]
pub struct WorkspaceApi;

impl Interface for WorkspaceApi {
    open spec fn named() -> Seq<char> {
        "WorkspaceApi"@
    }

    fn name() -> (name: &'static str) {
        "WorkspaceApi"
    }

    open spec fn interface() -> SchemaModel {
        SchemaModel {
            name: "WorkspaceApi"@,
            methods: seq![
                method_model(
                    "show_toast"@,
                    seq![field("message"@, String::described())],
                    String::described(),
                ),
                method_model(
                    "set_accent"@,
                    seq![field("hue"@, Scalar::described())],
                    String::described(),
                ),
            ],
            events: Seq::empty(),
            types: Seq::empty(),
        }
    }

    proof fn types_are_listed_once() {
    }

    proof fn every_mention_is_listed() {
        reveal_with_fuel(is_covered, 3);
        assert(schema_covered(Self::interface()));
    }

    fn schema() -> (schema: Schema) {
        let show_toast_arguments: Vec<ArgumentSchema> = vec![
            ArgumentSchema { name: "message", ty: String::describe() },
        ];
        assert(argument_models(show_toast_arguments@) =~= seq![field("message"@, String::described())]);
        let set_accent_arguments: Vec<ArgumentSchema> = vec![
            ArgumentSchema { name: "hue", ty: Scalar::describe() },
        ];
        assert(argument_models(set_accent_arguments@) =~= seq![field("hue"@, Scalar::described())]);
        let methods: Vec<MethodSchema> = vec![
            method_schema("show_toast", show_toast_arguments, String::describe()),
            method_schema("set_accent", set_accent_arguments, String::describe()),
        ];
        assert(method_schema_models(methods@) =~= Self::interface().methods);
        let events: Vec<EventSchema> = Vec::new();
        assert(event_models(events@) =~= Self::interface().events);
        let types: Vec<TypeDefinition> = Vec::new();
        assert(definition_models(types@) =~= Seq::<DefinitionModel>::empty());
        Schema { name: "WorkspaceApi", methods, events, types }
    }
}

} // verus!
