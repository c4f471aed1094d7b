//! Interfaces as data, and what an annotated trait is expanded to.

use embedded_gpui::demo::{
    button_label, clicks_text, command_status, milestone_text, InputLine, Milestone, Workspace,
};
use embedded_gpui::display::PluginDisplay;
use embedded_gpui::interface_plan::{
    plan, Argument, ArgumentValue, Fault, Parameter, Place, Plan, PlanError, Signature, TraitItem,
};
use embedded_gpui::interfaces::{
    ClipboardApi, CommandApi, CounterApi, JsRuntimeApi, PaletteApi, SurfaceApi, TextApi, ViewApi,
    WorkspaceApi,
};
use embedded_gpui::trial_interfaces::{
    ChameleonApi, FactoryApi, GatekeeperApi, ItemApi, TestCounterApi, TestHost, TestPlugin, VaultApi,
    ViewProbeApi,
};
use embedded_gpui::naming::{join_letters, join_words, pascal_case, snake_case, split_words};
use embedded_gpui::platform_types::Scalar;
use embedded_gpui::schema::{
    collect_definition, Describe, Interface, Ref, Schema, TypeDefinition, TypeKind, TypeSchema,
    VariantFields,
};
use embedded_gpui::text_imports::{
    advance, convert_line_layout, glyph_raster_bounds, platform_runs, raster_request, resolve_font,
    typographic_bounds, DeviceBounds, Font, FontDescriptor, FontRun, FontStep, FontStyle,
    GlyphParams, PlatformGlyph, PlatformLine, PlatformRun,
};
use embedded_gpui::display_list::{zero, Bounds, Extent, WirePoint};

fn method_names(schema: &Schema) -> Vec<&'static str> {
    schema.methods.iter().map(|method| method.name).collect()
}

fn type_names(schema: &Schema) -> Vec<&'static str> {
    schema.types.iter().map(|definition| definition.name).collect()
}

#[test]
fn test_interfaces_describe_themselves() {
    let schema = TestPlugin::schema();
    assert_eq!(schema.name, "TestPlugin");
    assert_eq!(
        method_names(&schema),
        ["counter", "factory", "gatekeeper", "chameleon", "ping_host", "mount", "spin"]
    );
    let ping = &schema.methods[4];
    assert!(ping.is_async);
    assert_eq!(ping.arguments.len(), 1);
    assert_eq!(ping.arguments[0].name, "message");
    assert_eq!(ping.arguments[0].ty, TypeSchema::String);
    let mount = &schema.methods[5];
    assert_eq!(mount.arguments[0].ty, TypeSchema::Ref("SurfaceApi"));
    assert_eq!(mount.response, TypeSchema::Ref("ViewProbeApi"));

    // Named payload types travel with the schema, transitively and once each.
    let counter = TestCounterApi::schema();
    assert_eq!(counter.events.len(), 1);
    assert_eq!(counter.events[0].name, "counter_milestone");
    assert_eq!(counter.events[0].ty, TypeSchema::Named("CounterMilestone"));
    let milestone = counter
        .types
        .iter()
        .find(|definition| definition.name == "CounterMilestone")
        .expect("event type is defined in the schema");
    let TypeKind::Struct(fields) = &milestone.kind else {
        panic!("CounterMilestone is a struct");
    };
    assert_eq!(fields[0].name, "count");
    assert_eq!(fields[0].ty, TypeSchema::Integer);
}

#[test]
fn the_interfaces_of_views_and_counters_describe_themselves() {
    let counter = CounterApi::schema();
    assert_eq!(counter.name, "CounterApi");
    assert_eq!(method_names(&counter), vec!["increment", "clicks"]);
    assert_eq!(counter.methods[0].arguments[0].name, "by");
    assert_eq!(counter.methods[0].arguments[0].ty, TypeSchema::Integer);
    assert!(!counter.methods[0].is_async);
    assert_eq!(counter.events.len(), 1);
    assert_eq!(counter.events[0].name, "milestone");
    assert_eq!(counter.events[0].ty, TypeSchema::Named("Milestone"));
    match &counter.types[0].kind {
        TypeKind::Struct(fields) => {
            assert_eq!(fields[0].name, "clicks");
            assert_eq!(fields[0].ty, TypeSchema::Integer);
        }
        other => panic!("{other:?}"),
    }
    assert_eq!(<Ref<CounterApi>>::describe(), TypeSchema::Ref("CounterApi"));

    let view = ViewApi::schema();
    assert_eq!(view.name, "ViewApi");
    assert_eq!(method_names(&view), vec!["resize", "mouse", "key"]);
    assert_eq!(view.methods[1].arguments[0].name, "event");
    assert_eq!(view.methods[1].arguments[0].ty, TypeSchema::Named("MouseEvent"));
    assert_eq!(view.methods[1].response, TypeSchema::Unit);
    // Named payload types travel with the schema, transitively and once each.
    assert_eq!(
        type_names(&view),
        vec![
            "Geometry",
            "HostWindow",
            "Appearance",
            "MouseEvent",
            "MouseButtonEvent",
            "MouseButton",
            "Point",
            "Modifiers",
            "MouseMoveEvent",
            "ScrollWheelEvent",
            "MouseExitEvent",
            "KeyEvent",
            "Keystroke",
        ]
    );
    let key_event = view.types.iter().find(|definition| definition.name == "KeyEvent").unwrap();
    match &key_event.kind {
        TypeKind::Enum(variants) => {
            assert_eq!(variants[0].name, "Down");
            match &variants[0].fields {
                VariantFields::Named(fields) => {
                    assert_eq!(fields[0].ty, TypeSchema::Named("Keystroke"));
                    assert_eq!((fields[1].name, &fields[1].ty), ("is_held", &TypeSchema::Bool));
                }
                other => panic!("{other:?}"),
            }
        }
        other => panic!("{other:?}"),
    }
}

#[test]
fn the_other_interfaces_describe_themselves() {
    let surface = SurfaceApi::schema();
    assert_eq!(method_names(&surface), vec!["attach", "set_cursor"]);
    assert_eq!(surface.methods[0].arguments[0].ty, TypeSchema::Ref("ViewApi"));
    assert_eq!(type_names(&surface), vec!["Cursor"]);
    match &surface.types[0].kind {
        TypeKind::Enum(variants) => {
            assert_eq!(variants.len(), 9);
            assert_eq!(variants[1].name, "IBeam");
            assert_eq!(variants[1].fields, VariantFields::Unit);
        }
        other => panic!("{other:?}"),
    }
    let clipboard = ClipboardApi::schema();
    assert_eq!(method_names(&clipboard), vec!["read", "write"]);
    assert_eq!(
        clipboard.methods[0].response,
        TypeSchema::Option(Box::new(TypeSchema::String))
    );
    assert_eq!(clipboard.events[0].name, "clipboard_changed");
    assert_eq!(type_names(&clipboard), vec!["ClipboardChanged"]);
    assert_eq!(method_names(&JsRuntimeApi::schema()), vec!["load"]);
    assert_eq!(CounterApi::schema().events[0].name, "milestone");
    assert_eq!(TextApi::schema().methods[0].response, TypeSchema::String);
    assert_eq!(CommandApi::schema().name, "CommandApi");
    let palette = PaletteApi::schema();
    assert_eq!(
        palette.methods[0].response,
        TypeSchema::List(Box::new(TypeSchema::Named("PaletteEntry")))
    );
    assert_eq!(type_names(&palette), vec!["PaletteEntry"]);
    assert_eq!(WorkspaceApi::schema().methods[1].arguments[0].ty, TypeSchema::Float);
}

#[test]
fn the_interfaces_of_the_trials_describe_themselves() {
    assert!(ChameleonApi::schema().methods.is_empty());
    assert_eq!(FactoryApi::schema().methods[0].response, TypeSchema::Ref("ItemApi"));
    let item = ItemApi::schema();
    assert_eq!(method_names(&item), vec!["bump", "describe"]);
    assert_eq!(type_names(&item), vec!["ItemInfo"]);
    let gatekeeper = GatekeeperApi::schema();
    assert_eq!((gatekeeper.methods[0].is_async, gatekeeper.methods[1].is_async), (false, true));
    assert_eq!(
        gatekeeper.methods[1].response,
        TypeSchema::List(Box::new(TypeSchema::Integer))
    );
    let vault = VaultApi::schema();
    assert_eq!((vault.methods[0].is_async, vault.methods[1].is_async), (true, false));
    assert_eq!(method_names(&TestHost::schema()), vec!["ping"]);
    assert_eq!(type_names(&ViewProbeApi::schema()), vec!["SeenGeometry"]);
}

#[test]
fn names_come_back() {
    for name in ["invoke", "show_toast", "set_accent2", "a_b_c"] {
        assert_eq!(snake_case(&pascal_case(name)), name);
    }
    assert_eq!(pascal_case("show_toast"), "ShowToast");
    // An empty word does not come back.
    assert_eq!(snake_case(&pascal_case("show__toast")), "show_toast");
}

#[test]
fn shapes_nest() {
    assert_eq!(<()>::describe(), TypeSchema::Unit);
    assert_eq!(char::describe(), TypeSchema::String);
    assert_eq!(
        <(bool, Vec<i64>)>::describe(),
        TypeSchema::Tuple(vec![TypeSchema::Bool, TypeSchema::List(Box::new(TypeSchema::Integer))])
    );
    assert_eq!(
        <std::collections::HashMap<String, u8>>::describe(),
        TypeSchema::Dictionary(Box::new(TypeSchema::Integer))
    );
    assert_eq!(Scalar::describe(), TypeSchema::Float);
}

#[test]
fn definitions_are_collected_once() {
    let definition = |name: &'static str| TypeDefinition { name, kind: TypeKind::Struct(Vec::new()) };
    let mut types = Vec::new();
    assert!(collect_definition(&mut types, definition("A")));
    assert!(!collect_definition(&mut types, definition("A")));
    assert!(collect_definition(&mut types, definition("B")));
    assert_eq!(types.len(), 2);
}

#[test]
fn names_change_their_case() {
    assert_eq!(pascal_case("invoke"), "Invoke");
    assert_eq!(pascal_case("show_toast"), "ShowToast");
    assert_eq!(pascal_case("_set__accent"), "SetAccent");
    assert_eq!(pascal_case("stra\u{df}e_\u{df}"), "Stra\u{df}eSS");
    assert_eq!(pascal_case(""), "");
    assert_eq!(snake_case("CommandApi"), "command_api");
    assert_eq!(snake_case("plain"), "plain");
    assert_eq!(snake_case("HTTP"), "h_t_t_p");
    let words = split_words("a__b");
    assert_eq!(words, vec![vec!['a'], vec![], vec!['b']]);
    let capitals = vec!["X".to_string(), "".to_string(), "YZ".to_string()];
    assert_eq!(join_words(&words, &capitals), "XYZ");
    assert_eq!(join_letters(&vec!['A', 'B'], &vec![None, Some("b".to_string())]), "A_b");
}

fn argument(key: &str, value: ArgumentValue) -> Argument {
    Argument { key: Some(key.to_string()), value }
}

fn complete_arguments() -> Vec<Argument> {
    vec![
        argument("spec", ArgumentValue::Path(Some("CommandSpec".to_string()))),
        argument("type_name", ArgumentValue::Text("demo.command".to_string())),
        argument("snapshot", ArgumentValue::Path(Some("CommandSnapshot".to_string()))),
    ]
}

fn function(name: &str, parameters: Vec<Parameter>) -> TraitItem {
    TraitItem::Function(Signature { name: name.to_string(), is_async: false, parameters })
}

fn receiver() -> Parameter {
    Parameter::Receiver { reference: true, mutable: true }
}

fn named(name: &str) -> Parameter {
    Parameter::Named { name: name.to_string() }
}

fn planned(items: Vec<TraitItem>) -> Result<Plan, PlanError> {
    plan("CommandApi", &complete_arguments(), &items)
}

fn failure(items: Vec<TraitItem>) -> (Fault, Place) {
    match planned(items) {
        Err(error) => (error.fault, error.place),
        Ok(_) => panic!("planned"),
    }
}

#[test]
fn a_trait_is_expanded_by_its_plan() {
    let plan = planned(vec![
        function("invoke", vec![receiver(), named("cx")]),
        TraitItem::Other,
        function("show_toast", vec![receiver(), named("message"), named("loud"), named("cx")]),
    ])
    .ok()
    .unwrap();
    assert_eq!((plan.spec.as_str(), plan.kind.as_str()), ("CommandSpec", "demo.command"));
    assert_eq!(plan.snapshot, 2);
    assert_eq!(plan.caller, "CommandApiCaller");
    assert_eq!(plan.register, "register_command_api");
    assert_eq!(
        plan.register_doc,
        "Installs the `CommandApi` methods of `T` into a shared entity's dispatch table."
    );
    assert!(plan.caller_doc.starts_with("Typed calls to a shared `CommandSpec` entity"));
    assert_eq!(plan.methods.len(), 2);
    assert_eq!(plan.methods[0].message, "Invoke");
    assert!(plan.methods[0].fields.is_empty());
    assert_eq!((plan.methods[1].item, plan.methods[1].message.as_str()), (2, "ShowToast"));
    assert_eq!(plan.methods[1].fields, vec!["message", "loud"]);
}

#[test]
fn bad_arguments_are_pointed_at() {
    let fails = |arguments: Vec<Argument>| match plan("A", &arguments, &Vec::new()) {
        Err(error) => (error.fault, error.place),
        Ok(_) => panic!("planned"),
    };
    let mut arguments = complete_arguments();
    arguments.insert(1, argument("speck", ArgumentValue::Expression));
    assert_eq!(fails(arguments), (Fault::UnexpectedArgument, Place::Argument(1)));
    let nameless = vec![Argument { key: None, value: ArgumentValue::Literal }];
    assert_eq!(fails(nameless), (Fault::UnexpectedArgument, Place::Argument(0)));
    assert_eq!(fails(Vec::new()), (Fault::MissingSpec, Place::Arguments));
    // A path that is no identifier takes the spec's name away, and a literal that is no
    // string gives the interface none.
    let mut arguments = complete_arguments();
    arguments.push(argument("spec", ArgumentValue::Path(None)));
    assert_eq!(fails(arguments), (Fault::MissingSpec, Place::Arguments));
    let mut arguments = complete_arguments();
    arguments[1].value = ArgumentValue::Literal;
    assert_eq!(fails(arguments), (Fault::MissingName, Place::Arguments));
    // What is neither a path nor a literal is not expected.
    let mut arguments = complete_arguments();
    arguments.push(argument("spec", ArgumentValue::Literal));
    assert_eq!(fails(arguments), (Fault::UnexpectedArgument, Place::Argument(3)));
    let mut arguments = complete_arguments();
    arguments.push(argument("type_name", ArgumentValue::Path(None)));
    assert_eq!(fails(arguments), (Fault::UnexpectedArgument, Place::Argument(3)));
    let mut arguments = complete_arguments();
    arguments.remove(1);
    assert_eq!(fails(arguments), (Fault::MissingName, Place::Arguments));
    let mut arguments = complete_arguments();
    arguments.pop();
    assert_eq!(fails(arguments), (Fault::MissingSnapshot, Place::Arguments));
}

#[test]
fn later_arguments_speak_last() {
    let mut arguments = complete_arguments();
    arguments.insert(0, argument("type_name", ArgumentValue::Literal));
    arguments.insert(0, argument("spec", ArgumentValue::Path(None)));
    arguments.push(argument("type_name", ArgumentValue::Literal));
    let plan = plan("A", &arguments, &Vec::new()).ok().unwrap();
    assert_eq!((plan.spec.as_str(), plan.kind.as_str()), ("CommandSpec", "demo.command"));
    assert_eq!(plan.snapshot, 4);
}

#[test]
fn bad_methods_are_pointed_at() {
    let asynchronous = TraitItem::Function(Signature {
        name: "read".to_string(),
        is_async: true,
        parameters: Vec::new(),
    });
    assert_eq!(failure(vec![asynchronous]), (Fault::AsyncMethod, Place::Signature(0)));
    let shared = Parameter::Receiver { reference: true, mutable: false };
    assert_eq!(
        failure(vec![TraitItem::Other, function("a", vec![shared, named("cx")])]),
        (Fault::NoReceiver, Place::Parameter(1, 0))
    );
    let by_value = Parameter::Receiver { reference: false, mutable: true };
    assert_eq!(
        failure(vec![function("a", vec![by_value, named("cx")])]),
        (Fault::NoReceiver, Place::Parameter(0, 0))
    );
    assert_eq!(
        failure(vec![function("a", Vec::new())]),
        (Fault::NoReceiver, Place::Parameter(0, 0))
    );
    assert_eq!(
        failure(vec![function("a", vec![receiver()])]),
        (Fault::NoContext, Place::Signature(0))
    );
    assert_eq!(
        failure(vec![function("a", vec![receiver(), receiver(), named("cx")])]),
        (Fault::UnexpectedReceiver, Place::Parameter(0, 1))
    );
    assert_eq!(
        failure(vec![function("a", vec![receiver(), named("b"), Parameter::Pattern, named("cx")])]),
        (Fault::NoIdentifier, Place::Pattern(0, 2))
    );
    // The context itself may be any pattern.
    assert!(planned(vec![function("a", vec![receiver(), Parameter::Pattern])]).is_ok());
}

#[test]
fn faults_say_what_is_wrong() {
    let messages: Vec<String> = [
        Fault::UnexpectedArgument,
        Fault::MissingSpec,
        Fault::MissingName,
        Fault::MissingSnapshot,
        Fault::AsyncMethod,
        Fault::NoReceiver,
        Fault::NoContext,
        Fault::UnexpectedReceiver,
        Fault::NoIdentifier,
    ]
    .into_iter()
    .map(|fault| fault.message())
    .collect();
    assert_eq!(
        messages,
        vec![
            "expected `spec = Ident`, `type_name = \"...\"`, or `snapshot = Type`",
            "missing `spec = Ident`",
            "missing `type_name = \"...\"`",
            "missing `snapshot = Type`",
            "async methods are not supported; register with Methods::on_async instead",
            "shared interface methods take `&mut self`",
            "shared interface methods end with `cx: &mut Context<Self>`",
            "unexpected receiver",
            "message parameters must be plain identifiers",
        ]
    );
}

#[test]
fn every_plugin_sees_the_same_display() {
    let display = PluginDisplay::new();
    assert_eq!(display.id(), 1);
    assert_eq!(
        display.uuid(),
        &vec![0x67, 0x70, 0x75, 0x69, 0x5f, 0x70, 0x6c, 0x75, 0x67, 0x69, 0x6e, 0, 0, 0, 0, 1]
    );
    assert_eq!(f32::from_bits(display.bounds().size.width.bits), 8192.0);
    assert_eq!(display.bounds().origin.x, zero());
}

fn family(step: FontStep) -> String {
    match step {
        FontStep::Ask(Font { family, weight, style }) => {
            assert_eq!(weight, Scalar { bits: 400f32.to_bits() });
            assert_eq!(style, FontStyle::Italic);
            family
        }
        FontStep::Use(id) => format!("font {id}"),
    }
}

#[test]
fn fonts_fall_back_in_order() {
    let font = FontDescriptor {
        family: "Zed Mono".to_string(),
        weight: Scalar { bits: 400f32.to_bits() },
        italic: true,
    };
    assert_eq!(family(resolve_font(&font, 0, None)), "Zed Mono");
    assert_eq!(family(resolve_font(&font, 1, None)), ".SystemUIFont");
    assert_eq!(family(resolve_font(&font, 2, None)), "Helvetica");
    assert_eq!(family(resolve_font(&font, 3, None)), "font 0");
    assert_eq!(family(resolve_font(&font, 1, Some(17))), "font 17");
    assert_eq!(family(resolve_font(&font, 3, Some((1 << 32) + 5))), "font 5");
}

#[test]
fn lines_are_told_in_the_plugins_numbers() {
    let at = WirePoint { x: Scalar { bits: 1 }, y: Scalar { bits: 2 } };
    let glyph = |index: u64| PlatformGlyph { id: 9, position: at, index, is_emoji: index == 0 };
    let line = convert_line_layout(&PlatformLine {
        font_size: Scalar { bits: 3 },
        width: Scalar { bits: 4 },
        ascent: Scalar { bits: 5 },
        descent: Scalar { bits: 6 },
        len: (1 << 32) + 11,
        runs: vec![
            PlatformRun { font_id: 2, glyphs: vec![glyph(0), glyph(4)] },
            PlatformRun { font_id: (1 << 32) + 3, glyphs: Vec::new() },
        ],
    });
    assert_eq!((line.font_size.bits, line.width.bits, line.len), (3, 4, 11));
    assert_eq!((line.ascent.bits, line.descent.bits), (5, 6));
    assert_eq!(line.runs.len(), 2);
    assert_eq!(line.runs[0].glyphs[1].index, 4);
    assert!(line.runs[0].glyphs[0].is_emoji && !line.runs[0].glyphs[1].is_emoji);
    assert_eq!(line.runs[1].font_id, 3);
    let runs = platform_runs(&vec![FontRun { len: 4, font_id: 1 }, FontRun { len: 5, font_id: 2 }]);
    assert_eq!((runs[1].len, runs[1].font_id), (5, 2));
}

#[test]
fn failures_of_the_text_system_measure_nothing() {
    let nothing = Extent { width: zero(), height: zero() };
    assert_eq!(advance(None), nothing);
    let extent = Extent { width: Scalar { bits: 7 }, height: zero() };
    assert_eq!(advance(Some(extent)), extent);
    let origin = WirePoint { x: zero(), y: zero() };
    assert_eq!(typographic_bounds(None), Bounds { origin, size: nothing });
    let bounds = DeviceBounds { origin_x: -1, origin_y: 2, width: 3, height: 4 };
    assert_eq!(glyph_raster_bounds(Some(bounds)), bounds);
    let none = DeviceBounds { origin_x: 0, origin_y: 0, width: 0, height: 0 };
    assert_eq!(glyph_raster_bounds(None), none);
    let request = raster_request(GlyphParams {
        font_id: 1,
        glyph_id: 2,
        font_size: Scalar { bits: 3 },
        subpixel_variant_x: 4,
        subpixel_variant_y: 5,
        scale_factor: Scalar { bits: 6 },
        is_emoji: true,
    });
    assert_eq!((request.font_id, request.glyph_id), (1, 2));
    assert_eq!((request.subpixel_variant_x, request.subpixel_variant_y), (4, 5));
    assert!(!request.subpixel_rendering && request.dilation == 0);
}

#[test]
fn the_demonstration_says_what_happens() {
    assert_eq!(button_label(false, 3), "Connecting\u{2026}");
    assert_eq!(button_label(true, 0), "Click me!");
    assert_eq!(button_label(true, 12), "Clicked 12x");
    assert_eq!(clicks_text(1), "The button view has been clicked 1 time.");
    assert_eq!(clicks_text(2), "The button view has been clicked 2 times.");
    assert_eq!(milestone_text(None), "no milestone events yet (every 5th click)");
    let last = Some(Milestone { clicks: 10 });
    assert_eq!(milestone_text(last), "last milestone event: 10 clicks");
    assert_eq!(command_status(Ok("done".to_string())), "done");
    assert_eq!(command_status(Err("no".to_string())), "command failed: no");
    let mut workspace = Workspace::new();
    assert_eq!(workspace.last_toast(), None);
    assert_eq!(workspace.show_toast("hi".to_string()), "the host is showing your toast");
    assert_eq!(workspace.last_toast().as_deref(), Some("hi"));
}

#[test]
fn the_input_line_takes_text_and_backspaces() {
    let mut line = InputLine::new();
    assert_eq!(line.shown(false), "click and type\u{2026}");
    assert_eq!(line.shown(true), "\u{258f}");
    line.replace_text_in_range("a\u{1f35e}b");
    assert_eq!(line.text(), "a\u{1f35e}b");
    assert_eq!(line.selected_text_range(), (4, 4));
    assert!(!line.key_down(false));
    assert!(line.key_down(true));
    assert!(line.key_down(true));
    assert_eq!(line.shown(false), "a");
    assert_eq!(line.shown(true), "a\u{258f}");
    line.key_down(true);
    assert!(line.key_down(true));
    assert_eq!(line.text(), "");
}
