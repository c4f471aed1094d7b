//! What the interfaces are described as: the shape of every type that crosses, and the methods
//! and events of every interface, spelled out.

use vstd::prelude::*;
use crate::clipboard::ClipboardChanged;
use crate::demo::Milestone;
use crate::interfaces::{
    appearance_definition, clipboard_changed_definition, cursor_definition, geometry_definition,
    host_window_definition, key_event_definition, keystroke_definition, milestone_definition,
    modifiers_definition, mouse_button_definition, mouse_button_event_definition,
    mouse_event_definition, mouse_exit_event_definition, mouse_move_event_definition,
    palette_entry_definition, point_definition, scroll_wheel_event_definition, ClipboardApi,
    CommandApi, CounterApi, JsRuntimeApi, PaletteApi, PaletteEntry, SurfaceApi, TextApi, ViewApi,
    WorkspaceApi,
};
use crate::schema::{
    defines, lemma_four_are_collected, lemma_three_are_collected, lemma_two_are_collected,
    DefinitionModel, Describe, FieldModel, Interface, KindModel, MethodSchemaModel, TypeModel,
    VariantFieldsModel, VariantModel,
};
use crate::surface::{
    Appearance, Cursor, Geometry, HostWindow, KeyEvent, Keystroke, Modifiers, MouseButton,
    MouseButtonEvent, MouseEvent, MouseExitEvent, MouseMoveEvent, Point, ScrollWheelEvent,
};
use crate::trial_interfaces::{
    chameleon_state_definition, counter_milestone_definition, item_info_definition,
    seen_geometry_definition, ChameleonApi, ChameleonState, CounterMilestone, FactoryApi,
    GatekeeperApi, ItemApi, ItemInfo, KeyApi, SeenGeometry, TestCounterApi, TestHost, TestPlugin,
    VaultApi, ViewProbeApi,
};

verus! {

/// An [`Appearance`] is described as one of `Light`, `VibrantLight`, `Dark` and `VibrantDark`,
/// each under its own name and with what it holds.
pub proof fn appearance_is_described_by_its_variants(types: Seq<DefinitionModel>)
    requires
        !defines(types, "Appearance"@),
    ensures
        Appearance::described() == TypeModel::Named("Appearance"@),
        Appearance::collected(types)[types.len() as int] == (DefinitionModel {
            name: "Appearance"@,
            kind: KindModel::Enum(
                seq![
                    VariantModel {
                        name: "Light"@,
                        fields: VariantFieldsModel::Unit,
                    },
                    VariantModel {
                        name: "VibrantLight"@,
                        fields: VariantFieldsModel::Unit,
                    },
                    VariantModel {
                        name: "Dark"@,
                        fields: VariantFieldsModel::Unit,
                    },
                    VariantModel {
                        name: "VibrantDark"@,
                        fields: VariantFieldsModel::Unit,
                    },
                ],
            ),
        }),
{
}

/// A [`HostWindow`] is described as an object with `id`, `width`, `height`, `scale_factor`,
/// `active` and `appearance`, each under its own name and of its own shape.
pub proof fn host_window_is_described_by_its_fields(types: Seq<DefinitionModel>)
    requires
        !defines(types, "HostWindow"@),
    ensures
        HostWindow::described() == TypeModel::Named("HostWindow"@),
        HostWindow::collected(types)[types.len() as int] == (DefinitionModel {
            name: "HostWindow"@,
            kind: KindModel::Struct(
                seq![
                    FieldModel { name: "id"@, ty: TypeModel::Integer },
                    FieldModel { name: "width"@, ty: TypeModel::Float },
                    FieldModel { name: "height"@, ty: TypeModel::Float },
                    FieldModel { name: "scale_factor"@, ty: TypeModel::Float },
                    FieldModel { name: "active"@, ty: TypeModel::Bool },
                    FieldModel { name: "appearance"@, ty: TypeModel::Named("Appearance"@) },
                ],
            ),
        }),
{
    let own = types.push(host_window_definition());
    Appearance::collecting_adds_each_once(own);
    let all = HostWindow::collected(types);
    assert(own.is_prefix_of(all));
    assert(all.subrange(0, own.len() as int)[types.len() as int] == own[types.len() as int]);
}

/// A [`Geometry`] is described as an object with `x`, `y`, `width`, `height` and `window`, each
/// under its own name and of its own shape.
pub proof fn geometry_is_described_by_its_fields(types: Seq<DefinitionModel>)
    requires
        !defines(types, "Geometry"@),
    ensures
        Geometry::described() == TypeModel::Named("Geometry"@),
        Geometry::collected(types)[types.len() as int] == (DefinitionModel {
            name: "Geometry"@,
            kind: KindModel::Struct(
                seq![
                    FieldModel { name: "x"@, ty: TypeModel::Float },
                    FieldModel { name: "y"@, ty: TypeModel::Float },
                    FieldModel { name: "width"@, ty: TypeModel::Float },
                    FieldModel { name: "height"@, ty: TypeModel::Float },
                    FieldModel { name: "window"@, ty: TypeModel::Named("HostWindow"@) },
                ],
            ),
        }),
{
    let own = types.push(geometry_definition());
    HostWindow::collecting_adds_each_once(own);
    let all = Geometry::collected(types);
    assert(own.is_prefix_of(all));
    assert(all.subrange(0, own.len() as int)[types.len() as int] == own[types.len() as int]);
}

/// A [`MouseButton`] is described as one of `Left`, `Right` and `Middle`, each under its own
/// name and with what it holds.
pub proof fn mouse_button_is_described_by_its_variants(types: Seq<DefinitionModel>)
    requires
        !defines(types, "MouseButton"@),
    ensures
        MouseButton::described() == TypeModel::Named("MouseButton"@),
        MouseButton::collected(types)[types.len() as int] == (DefinitionModel {
            name: "MouseButton"@,
            kind: KindModel::Enum(
                seq![
                    VariantModel {
                        name: "Left"@,
                        fields: VariantFieldsModel::Unit,
                    },
                    VariantModel {
                        name: "Right"@,
                        fields: VariantFieldsModel::Unit,
                    },
                    VariantModel {
                        name: "Middle"@,
                        fields: VariantFieldsModel::Unit,
                    },
                ],
            ),
        }),
{
}

/// A [`Modifiers`] is described as an object with `control`, `alt`, `shift` and `platform`,
/// each under its own name and of its own shape.
pub proof fn modifiers_is_described_by_its_fields(types: Seq<DefinitionModel>)
    requires
        !defines(types, "Modifiers"@),
    ensures
        Modifiers::described() == TypeModel::Named("Modifiers"@),
        Modifiers::collected(types)[types.len() as int] == (DefinitionModel {
            name: "Modifiers"@,
            kind: KindModel::Struct(
                seq![
                    FieldModel { name: "control"@, ty: TypeModel::Bool },
                    FieldModel { name: "alt"@, ty: TypeModel::Bool },
                    FieldModel { name: "shift"@, ty: TypeModel::Bool },
                    FieldModel { name: "platform"@, ty: TypeModel::Bool },
                ],
            ),
        }),
{
}

/// A [`Point`] is described as an object with `x` and `y`, each under its own name and of its
/// own shape.
pub proof fn point_is_described_by_its_fields(types: Seq<DefinitionModel>)
    requires
        !defines(types, "Point"@),
    ensures
        Point::described() == TypeModel::Named("Point"@),
        Point::collected(types)[types.len() as int] == (DefinitionModel {
            name: "Point"@,
            kind: KindModel::Struct(
                seq![
                    FieldModel { name: "x"@, ty: TypeModel::Float },
                    FieldModel { name: "y"@, ty: TypeModel::Float },
                ],
            ),
        }),
{
}

/// A [`MouseButtonEvent`] is described as an object with `button`, `position`, `modifiers` and
/// `click_count`, each under its own name and of its own shape.
pub proof fn mouse_button_event_is_described_by_its_fields(types: Seq<DefinitionModel>)
    requires
        !defines(types, "MouseButtonEvent"@),
    ensures
        MouseButtonEvent::described() == TypeModel::Named("MouseButtonEvent"@),
        MouseButtonEvent::collected(types)[types.len() as int] == (DefinitionModel {
            name: "MouseButtonEvent"@,
            kind: KindModel::Struct(
                seq![
                    FieldModel { name: "button"@, ty: TypeModel::Named("MouseButton"@) },
                    FieldModel { name: "position"@, ty: TypeModel::Named("Point"@) },
                    FieldModel { name: "modifiers"@, ty: TypeModel::Named("Modifiers"@) },
                    FieldModel { name: "click_count"@, ty: TypeModel::Integer },
                ],
            ),
        }),
{
    let own = types.push(mouse_button_event_definition());
    lemma_three_are_collected::<MouseButton, Point, Modifiers>(own);
    let all = MouseButtonEvent::collected(types);
    assert(own.is_prefix_of(all));
    assert(all.subrange(0, own.len() as int)[types.len() as int] == own[types.len() as int]);
}

/// A [`MouseMoveEvent`] is described as an object with `position`, `pressed_button` and
/// `modifiers`, each under its own name and of its own shape.
pub proof fn mouse_move_event_is_described_by_its_fields(types: Seq<DefinitionModel>)
    requires
        !defines(types, "MouseMoveEvent"@),
    ensures
        MouseMoveEvent::described() == TypeModel::Named("MouseMoveEvent"@),
        MouseMoveEvent::collected(types)[types.len() as int] == (DefinitionModel {
            name: "MouseMoveEvent"@,
            kind: KindModel::Struct(
                seq![
                    FieldModel { name: "position"@, ty: TypeModel::Named("Point"@) },
                    FieldModel {
                        name: "pressed_button"@,
                        ty: TypeModel::Optional(Box::new(TypeModel::Named("MouseButton"@))),
                    },
                    FieldModel { name: "modifiers"@, ty: TypeModel::Named("Modifiers"@) },
                ],
            ),
        }),
{
    let own = types.push(mouse_move_event_definition());
    lemma_three_are_collected::<Point, Option::<MouseButton>, Modifiers>(own);
    let all = MouseMoveEvent::collected(types);
    assert(own.is_prefix_of(all));
    assert(all.subrange(0, own.len() as int)[types.len() as int] == own[types.len() as int]);
}

/// A [`ScrollWheelEvent`] is described as an object with `position`, `delta_x`, `delta_y`,
/// `precise` and `modifiers`, each under its own name and of its own shape.
pub proof fn scroll_wheel_event_is_described_by_its_fields(types: Seq<DefinitionModel>)
    requires
        !defines(types, "ScrollWheelEvent"@),
    ensures
        ScrollWheelEvent::described() == TypeModel::Named("ScrollWheelEvent"@),
        ScrollWheelEvent::collected(types)[types.len() as int] == (DefinitionModel {
            name: "ScrollWheelEvent"@,
            kind: KindModel::Struct(
                seq![
                    FieldModel { name: "position"@, ty: TypeModel::Named("Point"@) },
                    FieldModel { name: "delta_x"@, ty: TypeModel::Float },
                    FieldModel { name: "delta_y"@, ty: TypeModel::Float },
                    FieldModel { name: "precise"@, ty: TypeModel::Bool },
                    FieldModel { name: "modifiers"@, ty: TypeModel::Named("Modifiers"@) },
                ],
            ),
        }),
{
    let own = types.push(scroll_wheel_event_definition());
    lemma_two_are_collected::<Point, Modifiers>(own);
    let all = ScrollWheelEvent::collected(types);
    assert(own.is_prefix_of(all));
    assert(all.subrange(0, own.len() as int)[types.len() as int] == own[types.len() as int]);
}

/// A [`MouseExitEvent`] is described as an object with `position`, `pressed_button` and
/// `modifiers`, each under its own name and of its own shape.
pub proof fn mouse_exit_event_is_described_by_its_fields(types: Seq<DefinitionModel>)
    requires
        !defines(types, "MouseExitEvent"@),
    ensures
        MouseExitEvent::described() == TypeModel::Named("MouseExitEvent"@),
        MouseExitEvent::collected(types)[types.len() as int] == (DefinitionModel {
            name: "MouseExitEvent"@,
            kind: KindModel::Struct(
                seq![
                    FieldModel { name: "position"@, ty: TypeModel::Named("Point"@) },
                    FieldModel {
                        name: "pressed_button"@,
                        ty: TypeModel::Optional(Box::new(TypeModel::Named("MouseButton"@))),
                    },
                    FieldModel { name: "modifiers"@, ty: TypeModel::Named("Modifiers"@) },
                ],
            ),
        }),
{
    let own = types.push(mouse_exit_event_definition());
    lemma_three_are_collected::<Point, Option::<MouseButton>, Modifiers>(own);
    let all = MouseExitEvent::collected(types);
    assert(own.is_prefix_of(all));
    assert(all.subrange(0, own.len() as int)[types.len() as int] == own[types.len() as int]);
}

/// A [`MouseEvent`] is described as one of `Down`, `Up`, `Move`, `Scroll` and `Exited`, each
/// under its own name and with what it holds.
pub proof fn mouse_event_is_described_by_its_variants(types: Seq<DefinitionModel>)
    requires
        !defines(types, "MouseEvent"@),
    ensures
        MouseEvent::described() == TypeModel::Named("MouseEvent"@),
        MouseEvent::collected(types)[types.len() as int] == (DefinitionModel {
            name: "MouseEvent"@,
            kind: KindModel::Enum(
                seq![
                    VariantModel {
                        name: "Down"@,
                        fields: VariantFieldsModel::Unnamed(
                            seq![TypeModel::Named("MouseButtonEvent"@)],
                        ),
                    },
                    VariantModel {
                        name: "Up"@,
                        fields: VariantFieldsModel::Unnamed(
                            seq![TypeModel::Named("MouseButtonEvent"@)],
                        ),
                    },
                    VariantModel {
                        name: "Move"@,
                        fields: VariantFieldsModel::Unnamed(
                            seq![TypeModel::Named("MouseMoveEvent"@)],
                        ),
                    },
                    VariantModel {
                        name: "Scroll"@,
                        fields: VariantFieldsModel::Unnamed(
                            seq![TypeModel::Named("ScrollWheelEvent"@)],
                        ),
                    },
                    VariantModel {
                        name: "Exited"@,
                        fields: VariantFieldsModel::Unnamed(
                            seq![TypeModel::Named("MouseExitEvent"@)],
                        ),
                    },
                ],
            ),
        }),
{
    let own = types.push(mouse_event_definition());
    lemma_four_are_collected::<
        MouseButtonEvent,
        MouseMoveEvent,
        ScrollWheelEvent,
        MouseExitEvent,
    >(own);
    let all = MouseEvent::collected(types);
    assert(own.is_prefix_of(all));
    assert(all.subrange(0, own.len() as int)[types.len() as int] == own[types.len() as int]);
}

/// A [`Keystroke`] is described as an object with `modifiers`, `key` and `key_char`, each under
/// its own name and of its own shape.
pub proof fn keystroke_is_described_by_its_fields(types: Seq<DefinitionModel>)
    requires
        !defines(types, "Keystroke"@),
    ensures
        Keystroke::described() == TypeModel::Named("Keystroke"@),
        Keystroke::collected(types)[types.len() as int] == (DefinitionModel {
            name: "Keystroke"@,
            kind: KindModel::Struct(
                seq![
                    FieldModel { name: "modifiers"@, ty: TypeModel::Named("Modifiers"@) },
                    FieldModel { name: "key"@, ty: TypeModel::Text },
                    FieldModel {
                        name: "key_char"@,
                        ty: TypeModel::Optional(Box::new(TypeModel::Text)),
                    },
                ],
            ),
        }),
{
    let own = types.push(keystroke_definition());
    Modifiers::collecting_adds_each_once(own);
    let all = Keystroke::collected(types);
    assert(own.is_prefix_of(all));
    assert(all.subrange(0, own.len() as int)[types.len() as int] == own[types.len() as int]);
}

/// A [`KeyEvent`] is described as one of `Down`, `Up` and `ModifiersChanged`, each under its
/// own name and with what it holds.
pub proof fn key_event_is_described_by_its_variants(types: Seq<DefinitionModel>)
    requires
        !defines(types, "KeyEvent"@),
    ensures
        KeyEvent::described() == TypeModel::Named("KeyEvent"@),
        KeyEvent::collected(types)[types.len() as int] == (DefinitionModel {
            name: "KeyEvent"@,
            kind: KindModel::Enum(
                seq![
                    VariantModel {
                        name: "Down"@,
                        fields: VariantFieldsModel::Named(
                            seq![
                                FieldModel {
                                    name: "keystroke"@,
                                    ty: TypeModel::Named("Keystroke"@),
                                },
                                FieldModel { name: "is_held"@, ty: TypeModel::Bool },
                            ],
                        ),
                    },
                    VariantModel {
                        name: "Up"@,
                        fields: VariantFieldsModel::Named(
                            seq![
                                FieldModel {
                                    name: "keystroke"@,
                                    ty: TypeModel::Named("Keystroke"@),
                                },
                            ],
                        ),
                    },
                    VariantModel {
                        name: "ModifiersChanged"@,
                        fields: VariantFieldsModel::Named(
                            seq![
                                FieldModel {
                                    name: "modifiers"@,
                                    ty: TypeModel::Named("Modifiers"@),
                                },
                            ],
                        ),
                    },
                ],
            ),
        }),
{
    let own = types.push(key_event_definition());
    lemma_two_are_collected::<Keystroke, Modifiers>(own);
    let all = KeyEvent::collected(types);
    assert(own.is_prefix_of(all));
    assert(all.subrange(0, own.len() as int)[types.len() as int] == own[types.len() as int]);
}

/// A [`Cursor`] is described as one of `Arrow`, `IBeam`, `Crosshair`, `ClosedHand`, `OpenHand`,
/// `PointingHand`, `ResizeLeftRight`, `ResizeUpDown` and `OperationNotAllowed`, each under its
/// own name and with what it holds.
pub proof fn cursor_is_described_by_its_variants(types: Seq<DefinitionModel>)
    requires
        !defines(types, "Cursor"@),
    ensures
        Cursor::described() == TypeModel::Named("Cursor"@),
        Cursor::collected(types)[types.len() as int] == (DefinitionModel {
            name: "Cursor"@,
            kind: KindModel::Enum(
                seq![
                    VariantModel {
                        name: "Arrow"@,
                        fields: VariantFieldsModel::Unit,
                    },
                    VariantModel {
                        name: "IBeam"@,
                        fields: VariantFieldsModel::Unit,
                    },
                    VariantModel {
                        name: "Crosshair"@,
                        fields: VariantFieldsModel::Unit,
                    },
                    VariantModel {
                        name: "ClosedHand"@,
                        fields: VariantFieldsModel::Unit,
                    },
                    VariantModel {
                        name: "OpenHand"@,
                        fields: VariantFieldsModel::Unit,
                    },
                    VariantModel {
                        name: "PointingHand"@,
                        fields: VariantFieldsModel::Unit,
                    },
                    VariantModel {
                        name: "ResizeLeftRight"@,
                        fields: VariantFieldsModel::Unit,
                    },
                    VariantModel {
                        name: "ResizeUpDown"@,
                        fields: VariantFieldsModel::Unit,
                    },
                    VariantModel {
                        name: "OperationNotAllowed"@,
                        fields: VariantFieldsModel::Unit,
                    },
                ],
            ),
        }),
{
}

/// A [`ClipboardChanged`] is described as an object with `text`, each under its own name and of
/// its own shape.
pub proof fn clipboard_changed_is_described_by_its_fields(types: Seq<DefinitionModel>)
    requires
        !defines(types, "ClipboardChanged"@),
    ensures
        ClipboardChanged::described() == TypeModel::Named("ClipboardChanged"@),
        ClipboardChanged::collected(types)[types.len() as int] == (DefinitionModel {
            name: "ClipboardChanged"@,
            kind: KindModel::Struct(
                seq![
                    FieldModel {
                        name: "text"@,
                        ty: TypeModel::Optional(Box::new(TypeModel::Text)),
                    },
                ],
            ),
        }),
{
}

/// A [`Milestone`] is described as an object with `clicks`, each under its own name and of its
/// own shape.
pub proof fn milestone_is_described_by_its_fields(types: Seq<DefinitionModel>)
    requires
        !defines(types, "Milestone"@),
    ensures
        Milestone::described() == TypeModel::Named("Milestone"@),
        Milestone::collected(types)[types.len() as int] == (DefinitionModel {
            name: "Milestone"@,
            kind: KindModel::Struct(
                seq![
                    FieldModel { name: "clicks"@, ty: TypeModel::Integer },
                ],
            ),
        }),
{
}

/// A [`PaletteEntry`] is described as an object with `label` and `command`, each under its own
/// name and of its own shape.
pub proof fn palette_entry_is_described_by_its_fields(types: Seq<DefinitionModel>)
    requires
        !defines(types, "PaletteEntry"@),
    ensures
        PaletteEntry::described() == TypeModel::Named("PaletteEntry"@),
        PaletteEntry::collected(types)[types.len() as int] == (DefinitionModel {
            name: "PaletteEntry"@,
            kind: KindModel::Struct(
                seq![
                    FieldModel { name: "label"@, ty: TypeModel::Text },
                    FieldModel { name: "command"@, ty: TypeModel::Ref("CommandApi"@) },
                ],
            ),
        }),
{
}

/// The methods of [`ViewApi`] are `resize`, `mouse` and `key`, with the arguments and the
/// response of each; it has no events.
pub proof fn view_api_is_called_by_its_methods()
    ensures
        ViewApi::named() == "ViewApi"@,
        ViewApi::interface().name == "ViewApi"@,
        ViewApi::interface().methods == seq![
            MethodSchemaModel {
                name: "resize"@,
                arguments: seq![
                    FieldModel { name: "geometry"@, ty: TypeModel::Named("Geometry"@) },
                ],
                response: TypeModel::Unit,
                is_async: false,
            },
            MethodSchemaModel {
                name: "mouse"@,
                arguments: seq![
                    FieldModel { name: "event"@, ty: TypeModel::Named("MouseEvent"@) },
                ],
                response: TypeModel::Unit,
                is_async: false,
            },
            MethodSchemaModel {
                name: "key"@,
                arguments: seq![
                    FieldModel { name: "event"@, ty: TypeModel::Named("KeyEvent"@) },
                ],
                response: TypeModel::Unit,
                is_async: false,
            },
        ],
        ViewApi::interface().events.len() == 0,
{
}

/// The methods of [`SurfaceApi`] are `attach` and `set_cursor`, with the arguments and the
/// response of each; it has no events.
pub proof fn surface_api_is_called_by_its_methods()
    ensures
        SurfaceApi::named() == "SurfaceApi"@,
        SurfaceApi::interface().name == "SurfaceApi"@,
        SurfaceApi::interface().methods == seq![
            MethodSchemaModel {
                name: "attach"@,
                arguments: seq![
                    FieldModel { name: "view"@, ty: TypeModel::Ref("ViewApi"@) },
                ],
                response: TypeModel::Unit,
                is_async: false,
            },
            MethodSchemaModel {
                name: "set_cursor"@,
                arguments: seq![
                    FieldModel { name: "cursor"@, ty: TypeModel::Named("Cursor"@) },
                ],
                response: TypeModel::Unit,
                is_async: false,
            },
        ],
        SurfaceApi::interface().events.len() == 0,
{
}

/// The methods of [`ClipboardApi`] are `read` and `write`, with the arguments and the response
/// of each; its event is `clipboard_changed`.
pub proof fn clipboard_api_is_called_by_its_methods()
    ensures
        ClipboardApi::named() == "ClipboardApi"@,
        ClipboardApi::interface().name == "ClipboardApi"@,
        ClipboardApi::interface().methods == seq![
            MethodSchemaModel {
                name: "read"@,
                arguments: Seq::empty(),
                response: TypeModel::Optional(Box::new(TypeModel::Text)),
                is_async: false,
            },
            MethodSchemaModel {
                name: "write"@,
                arguments: seq![
                    FieldModel { name: "text"@, ty: TypeModel::Text },
                ],
                response: TypeModel::Unit,
                is_async: false,
            },
        ],
        ClipboardApi::interface().events == seq![
            FieldModel { name: "clipboard_changed"@, ty: TypeModel::Named("ClipboardChanged"@) },
        ],
{
}

/// The method of [`JsRuntimeApi`] is `load`, with the arguments and the response of each; it
/// has no events.
pub proof fn js_runtime_api_is_called_by_its_methods()
    ensures
        JsRuntimeApi::named() == "JsRuntimeApi"@,
        JsRuntimeApi::interface().name == "JsRuntimeApi"@,
        JsRuntimeApi::interface().methods == seq![
            MethodSchemaModel {
                name: "load"@,
                arguments: seq![
                    FieldModel { name: "source"@, ty: TypeModel::Text },
                ],
                response: TypeModel::Optional(Box::new(TypeModel::Text)),
                is_async: false,
            },
        ],
        JsRuntimeApi::interface().events.len() == 0,
{
}

/// The methods of [`CounterApi`] are `increment` and `clicks`, with the arguments and the
/// response of each; its event is `milestone`.
pub proof fn counter_api_is_called_by_its_methods()
    ensures
        CounterApi::named() == "CounterApi"@,
        CounterApi::interface().name == "CounterApi"@,
        CounterApi::interface().methods == seq![
            MethodSchemaModel {
                name: "increment"@,
                arguments: seq![
                    FieldModel { name: "by"@, ty: TypeModel::Integer },
                ],
                response: TypeModel::Integer,
                is_async: false,
            },
            MethodSchemaModel {
                name: "clicks"@,
                arguments: Seq::empty(),
                response: TypeModel::Integer,
                is_async: false,
            },
        ],
        CounterApi::interface().events == seq![
            FieldModel { name: "milestone"@, ty: TypeModel::Named("Milestone"@) },
        ],
{
}

/// The method of [`TextApi`] is `text`, with the arguments and the response of each; it has no
/// events.
pub proof fn text_api_is_called_by_its_methods()
    ensures
        TextApi::named() == "TextApi"@,
        TextApi::interface().name == "TextApi"@,
        TextApi::interface().methods == seq![
            MethodSchemaModel {
                name: "text"@,
                arguments: Seq::empty(),
                response: TypeModel::Text,
                is_async: false,
            },
        ],
        TextApi::interface().events.len() == 0,
{
}

/// The method of [`CommandApi`] is `invoke`, with the arguments and the response of each; it
/// has no events.
pub proof fn command_api_is_called_by_its_methods()
    ensures
        CommandApi::named() == "CommandApi"@,
        CommandApi::interface().name == "CommandApi"@,
        CommandApi::interface().methods == seq![
            MethodSchemaModel {
                name: "invoke"@,
                arguments: Seq::empty(),
                response: TypeModel::Text,
                is_async: false,
            },
        ],
        CommandApi::interface().events.len() == 0,
{
}

/// The method of [`PaletteApi`] is `commands`, with the arguments and the response of each; it
/// has no events.
pub proof fn palette_api_is_called_by_its_methods()
    ensures
        PaletteApi::named() == "PaletteApi"@,
        PaletteApi::interface().name == "PaletteApi"@,
        PaletteApi::interface().methods == seq![
            MethodSchemaModel {
                name: "commands"@,
                arguments: Seq::empty(),
                response: TypeModel::List(Box::new(TypeModel::Named("PaletteEntry"@))),
                is_async: false,
            },
        ],
        PaletteApi::interface().events.len() == 0,
{
}

/// The methods of [`WorkspaceApi`] are `show_toast` and `set_accent`, with the arguments and
/// the response of each; it has no events.
pub proof fn workspace_api_is_called_by_its_methods()
    ensures
        WorkspaceApi::named() == "WorkspaceApi"@,
        WorkspaceApi::interface().name == "WorkspaceApi"@,
        WorkspaceApi::interface().methods == seq![
            MethodSchemaModel {
                name: "show_toast"@,
                arguments: seq![
                    FieldModel { name: "message"@, ty: TypeModel::Text },
                ],
                response: TypeModel::Text,
                is_async: false,
            },
            MethodSchemaModel {
                name: "set_accent"@,
                arguments: seq![
                    FieldModel { name: "hue"@, ty: TypeModel::Float },
                ],
                response: TypeModel::Text,
                is_async: false,
            },
        ],
        WorkspaceApi::interface().events.len() == 0,
{
}

/// A [`SeenGeometry`] is described as an object with `x`, `y`, `width`, `height`,
/// `viewport_width`, `viewport_height`, `scale_factor` and `active`, each under its own name
/// and of its own shape.
pub proof fn seen_geometry_is_described_by_its_fields(types: Seq<DefinitionModel>)
    requires
        !defines(types, "SeenGeometry"@),
    ensures
        SeenGeometry::described() == TypeModel::Named("SeenGeometry"@),
        SeenGeometry::collected(types)[types.len() as int] == (DefinitionModel {
            name: "SeenGeometry"@,
            kind: KindModel::Struct(
                seq![
                    FieldModel { name: "x"@, ty: TypeModel::Float },
                    FieldModel { name: "y"@, ty: TypeModel::Float },
                    FieldModel { name: "width"@, ty: TypeModel::Float },
                    FieldModel { name: "height"@, ty: TypeModel::Float },
                    FieldModel { name: "viewport_width"@, ty: TypeModel::Float },
                    FieldModel { name: "viewport_height"@, ty: TypeModel::Float },
                    FieldModel { name: "scale_factor"@, ty: TypeModel::Float },
                    FieldModel { name: "active"@, ty: TypeModel::Bool },
                ],
            ),
        }),
{
}

/// A [`CounterMilestone`] is described as an object with `count`, each under its own name and
/// of its own shape.
pub proof fn counter_milestone_is_described_by_its_fields(types: Seq<DefinitionModel>)
    requires
        !defines(types, "CounterMilestone"@),
    ensures
        CounterMilestone::described() == TypeModel::Named("CounterMilestone"@),
        CounterMilestone::collected(types)[types.len() as int] == (DefinitionModel {
            name: "CounterMilestone"@,
            kind: KindModel::Struct(
                seq![
                    FieldModel { name: "count"@, ty: TypeModel::Integer },
                ],
            ),
        }),
{
}

/// An [`ItemInfo`] is described as an object with `label` and `bumps`, each under its own name
/// and of its own shape.
pub proof fn item_info_is_described_by_its_fields(types: Seq<DefinitionModel>)
    requires
        !defines(types, "ItemInfo"@),
    ensures
        ItemInfo::described() == TypeModel::Named("ItemInfo"@),
        ItemInfo::collected(types)[types.len() as int] == (DefinitionModel {
            name: "ItemInfo"@,
            kind: KindModel::Struct(
                seq![
                    FieldModel { name: "label"@, ty: TypeModel::Text },
                    FieldModel { name: "bumps"@, ty: TypeModel::Integer },
                ],
            ),
        }),
{
}

/// A [`ChameleonState`] is described as an object with `mode` and `pokes`, each under its own
/// name and of its own shape.
pub proof fn chameleon_state_is_described_by_its_fields(types: Seq<DefinitionModel>)
    requires
        !defines(types, "ChameleonState"@),
    ensures
        ChameleonState::described() == TypeModel::Named("ChameleonState"@),
        ChameleonState::collected(types)[types.len() as int] == (DefinitionModel {
            name: "ChameleonState"@,
            kind: KindModel::Struct(
                seq![
                    FieldModel { name: "mode"@, ty: TypeModel::Text },
                    FieldModel { name: "pokes"@, ty: TypeModel::Integer },
                ],
            ),
        }),
{
}

/// The method of [`KeyApi`] is `unlock`, with the arguments and the response of each; it has no
/// events.
pub proof fn key_api_is_called_by_its_methods()
    ensures
        KeyApi::named() == "KeyApi"@,
        KeyApi::interface().name == "KeyApi"@,
        KeyApi::interface().methods == seq![
            MethodSchemaModel {
                name: "unlock"@,
                arguments: Seq::empty(),
                response: TypeModel::Text,
                is_async: false,
            },
        ],
        KeyApi::interface().events.len() == 0,
{
}

/// The methods of [`VaultApi`] are `read` and `key`, with the arguments and the response of
/// each; it has no events.
pub proof fn vault_api_is_called_by_its_methods()
    ensures
        VaultApi::named() == "VaultApi"@,
        VaultApi::interface().name == "VaultApi"@,
        VaultApi::interface().methods == seq![
            MethodSchemaModel {
                name: "read"@,
                arguments: Seq::empty(),
                response: TypeModel::Text,
                is_async: true,
            },
            MethodSchemaModel {
                name: "key"@,
                arguments: Seq::empty(),
                response: TypeModel::Ref("KeyApi"@),
                is_async: false,
            },
        ],
        VaultApi::interface().events.len() == 0,
{
}

/// The methods of [`ItemApi`] are `bump` and `describe`, with the arguments and the response of
/// each; it has no events.
pub proof fn item_api_is_called_by_its_methods()
    ensures
        ItemApi::named() == "ItemApi"@,
        ItemApi::interface().name == "ItemApi"@,
        ItemApi::interface().methods == seq![
            MethodSchemaModel {
                name: "bump"@,
                arguments: Seq::empty(),
                response: TypeModel::Integer,
                is_async: false,
            },
            MethodSchemaModel {
                name: "describe"@,
                arguments: Seq::empty(),
                response: TypeModel::Named("ItemInfo"@),
                is_async: false,
            },
        ],
        ItemApi::interface().events.len() == 0,
{
}

/// The method of [`FactoryApi`] is `create`, with the arguments and the response of each; it
/// has no events.
pub proof fn factory_api_is_called_by_its_methods()
    ensures
        FactoryApi::named() == "FactoryApi"@,
        FactoryApi::interface().name == "FactoryApi"@,
        FactoryApi::interface().methods == seq![
            MethodSchemaModel {
                name: "create"@,
                arguments: seq![
                    FieldModel { name: "label"@, ty: TypeModel::Text },
                ],
                response: TypeModel::Ref("ItemApi"@),
                is_async: false,
            },
        ],
        FactoryApi::interface().events.len() == 0,
{
}

/// The methods of [`GatekeeperApi`] are `guard` and `probe`, with the arguments and the
/// response of each; it has no events.
pub proof fn gatekeeper_api_is_called_by_its_methods()
    ensures
        GatekeeperApi::named() == "GatekeeperApi"@,
        GatekeeperApi::interface().name == "GatekeeperApi"@,
        GatekeeperApi::interface().methods == seq![
            MethodSchemaModel {
                name: "guard"@,
                arguments: seq![
                    FieldModel { name: "vault"@, ty: TypeModel::Ref("VaultApi"@) },
                ],
                response: TypeModel::Ref("VaultApi"@),
                is_async: false,
            },
            MethodSchemaModel {
                name: "probe"@,
                arguments: seq![
                    FieldModel { name: "target"@, ty: TypeModel::Ref("ItemApi"@) },
                    FieldModel { name: "method"@, ty: TypeModel::Text },
                    FieldModel {
                        name: "payload"@,
                        ty: TypeModel::List(Box::new(TypeModel::Integer)),
                    },
                ],
                response: TypeModel::List(Box::new(TypeModel::Integer)),
                is_async: true,
            },
        ],
        GatekeeperApi::interface().events.len() == 0,
{
}

/// [`ChameleonApi`] has no methods; it has no events.
pub proof fn chameleon_api_is_called_by_its_methods()
    ensures
        ChameleonApi::named() == "ChameleonApi"@,
        ChameleonApi::interface().name == "ChameleonApi"@,
        ChameleonApi::interface().methods.len() == 0,
        ChameleonApi::interface().events.len() == 0,
{
}

/// The methods of [`ViewProbeApi`] are `last_geometry`, `clicks`, `focus`, `text`,
/// `handled_keys` and `view_alive`, with the arguments and the response of each; it has no
/// events.
pub proof fn view_probe_api_is_called_by_its_methods()
    ensures
        ViewProbeApi::named() == "ViewProbeApi"@,
        ViewProbeApi::interface().name == "ViewProbeApi"@,
        ViewProbeApi::interface().methods == seq![
            MethodSchemaModel {
                name: "last_geometry"@,
                arguments: Seq::empty(),
                response: TypeModel::Optional(Box::new(TypeModel::Named("SeenGeometry"@))),
                is_async: false,
            },
            MethodSchemaModel {
                name: "clicks"@,
                arguments: Seq::empty(),
                response: TypeModel::Integer,
                is_async: false,
            },
            MethodSchemaModel {
                name: "focus"@,
                arguments: Seq::empty(),
                response: TypeModel::Unit,
                is_async: false,
            },
            MethodSchemaModel {
                name: "text"@,
                arguments: Seq::empty(),
                response: TypeModel::Text,
                is_async: false,
            },
            MethodSchemaModel {
                name: "handled_keys"@,
                arguments: Seq::empty(),
                response: TypeModel::Integer,
                is_async: false,
            },
            MethodSchemaModel {
                name: "view_alive"@,
                arguments: Seq::empty(),
                response: TypeModel::Bool,
                is_async: false,
            },
        ],
        ViewProbeApi::interface().events.len() == 0,
{
}

/// The methods of [`TestCounterApi`] are `increment` and `count`, with the arguments and the
/// response of each; its event is `counter_milestone`.
pub proof fn test_counter_api_is_called_by_its_methods()
    ensures
        TestCounterApi::named() == "TestCounterApi"@,
        TestCounterApi::interface().name == "TestCounterApi"@,
        TestCounterApi::interface().methods == seq![
            MethodSchemaModel {
                name: "increment"@,
                arguments: seq![
                    FieldModel { name: "by"@, ty: TypeModel::Integer },
                ],
                response: TypeModel::Integer,
                is_async: false,
            },
            MethodSchemaModel {
                name: "count"@,
                arguments: Seq::empty(),
                response: TypeModel::Integer,
                is_async: false,
            },
        ],
        TestCounterApi::interface().events == seq![
            FieldModel { name: "counter_milestone"@, ty: TypeModel::Named("CounterMilestone"@) },
        ],
{
}

/// The method of [`TestHost`] is `ping`, with the arguments and the response of each; it has no
/// events.
pub proof fn test_host_is_called_by_its_methods()
    ensures
        TestHost::named() == "TestHost"@,
        TestHost::interface().name == "TestHost"@,
        TestHost::interface().methods == seq![
            MethodSchemaModel {
                name: "ping"@,
                arguments: seq![
                    FieldModel { name: "message"@, ty: TypeModel::Text },
                ],
                response: TypeModel::Text,
                is_async: false,
            },
        ],
        TestHost::interface().events.len() == 0,
{
}

/// The methods of [`TestPlugin`] are `counter`, `factory`, `gatekeeper`, `chameleon`,
/// `ping_host`, `mount` and `spin`, with the arguments and the response of each; it has no
/// events.
pub proof fn test_plugin_is_called_by_its_methods()
    ensures
        TestPlugin::named() == "TestPlugin"@,
        TestPlugin::interface().name == "TestPlugin"@,
        TestPlugin::interface().methods == seq![
            MethodSchemaModel {
                name: "counter"@,
                arguments: Seq::empty(),
                response: TypeModel::Ref("TestCounterApi"@),
                is_async: false,
            },
            MethodSchemaModel {
                name: "factory"@,
                arguments: Seq::empty(),
                response: TypeModel::Ref("FactoryApi"@),
                is_async: false,
            },
            MethodSchemaModel {
                name: "gatekeeper"@,
                arguments: Seq::empty(),
                response: TypeModel::Ref("GatekeeperApi"@),
                is_async: false,
            },
            MethodSchemaModel {
                name: "chameleon"@,
                arguments: Seq::empty(),
                response: TypeModel::Ref("ChameleonApi"@),
                is_async: false,
            },
            MethodSchemaModel {
                name: "ping_host"@,
                arguments: seq![
                    FieldModel { name: "message"@, ty: TypeModel::Text },
                ],
                response: TypeModel::Text,
                is_async: true,
            },
            MethodSchemaModel {
                name: "mount"@,
                arguments: seq![
                    FieldModel { name: "surface"@, ty: TypeModel::Ref("SurfaceApi"@) },
                ],
                response: TypeModel::Ref("ViewProbeApi"@),
                is_async: false,
            },
            MethodSchemaModel {
                name: "spin"@,
                arguments: seq![
                    FieldModel { name: "millis"@, ty: TypeModel::Integer },
                ],
                response: TypeModel::Unit,
                is_async: false,
            },
        ],
        TestPlugin::interface().events.len() == 0,
{
}

} // verus!
