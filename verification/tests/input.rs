//! Input on its way to a view, questions to its text field, and the clipboard.

use embedded_gpui::clipboard::Clipboard;
use embedded_gpui::display_list::{zero, Bounds, Extent, WirePoint};
use embedded_gpui::host_surface::Surface;
use embedded_gpui::input_query::{
    accepts_text_input, answered_index, answered_range, bounds_for_range, field_answer, key_answer,
    key_consumed, range_from_wire, replace_and_mark_query, replace_text_query, said,
    selected_text_range, text_for_range, text_input_configuration, window_request, wire_range,
    Autocapitalize, DispatchResult, FieldQuestion, FieldReply, FieldSelection, InputAnswer,
    InputQuery, KeyDownQuery, TextForRange, TextInputAction, TextInputConfiguration, TextRange,
    Utf16Range, Utf16Selection, WindowRequest,
};
use embedded_gpui::platform_types::{
    CursorStyle, NavigationDirection, PlatformButton, PlatformInput, PlatformKeystroke,
    PlatformModifiers, Scalar, ScrollDelta, WindowAppearance,
};
use embedded_gpui::registry::Objects;
use embedded_gpui::surface::{
    Appearance, Cursor, KeyEvent, Keystroke, Modifiers, MouseButton, MouseEvent, Point,
};

fn scalar(value: f32) -> Scalar {
    Scalar { bits: value.to_bits() }
}

fn held(shift: bool, function: bool) -> PlatformModifiers {
    PlatformModifiers { control: false, alt: false, shift, platform: false, function }
}

fn keystroke(key: &str, modifiers: PlatformModifiers) -> PlatformKeystroke {
    PlatformKeystroke { modifiers, key: key.to_string(), key_char: Some(key.to_string()) }
}

#[test]
fn mouse_events_survive_the_crossing() {
    let down = PlatformInput::MouseDown {
        button: PlatformButton::Right,
        x: scalar(3.0),
        y: scalar(4.0),
        modifiers: held(true, false),
        click_count: 2,
        first_mouse: false,
    };
    let event = MouseEvent::from_gpui(&down).unwrap();
    match &event {
        MouseEvent::Down(event) => {
            assert_eq!(event.button, MouseButton::Right);
            assert_eq!(event.position, Point { x: scalar(3.0), y: scalar(4.0) });
            assert_eq!(event.click_count, 2);
            assert!(event.modifiers.shift);
        }
        other => panic!("{other:?}"),
    }
    assert_eq!(event.to_platform_input(), down);
    let scroll = PlatformInput::ScrollWheel {
        x: zero(),
        y: zero(),
        delta: ScrollDelta::Lines { x: zero(), y: scalar(-1.0) },
        modifiers: held(false, false),
    };
    assert_eq!(MouseEvent::from_gpui(&scroll).unwrap().to_platform_input(), scroll);
    // Navigation buttons do not cross, and keys are no mouse events.
    let back = PlatformInput::MouseUp {
        button: PlatformButton::Navigate(NavigationDirection::Back),
        x: zero(),
        y: zero(),
        modifiers: held(false, false),
        click_count: 1,
    };
    assert_eq!(MouseEvent::from_gpui(&back), None);
    assert_eq!(MouseEvent::from_gpui(&PlatformInput::Other), None);
}

#[test]
fn key_events_survive_the_crossing() {
    let down = PlatformInput::KeyDown {
        keystroke: keystroke("s", held(true, false)),
        is_held: true,
        prefer_character_input: false,
    };
    let event = KeyEvent::from_gpui(&down).unwrap();
    assert_eq!(
        event,
        KeyEvent::Down {
            keystroke: Keystroke {
                modifiers: Modifiers { control: false, alt: false, shift: true, platform: false },
                key: "s".to_string(),
                key_char: Some("s".to_string()),
            },
            is_held: true,
        }
    );
    assert_eq!(event.to_platform_input(), down);
    let changed = PlatformInput::ModifiersChanged { modifiers: held(true, true) };
    assert_eq!(
        KeyEvent::from_gpui(&changed).unwrap().to_platform_input(),
        PlatformInput::ModifiersChanged { modifiers: held(true, false) },
        "the function key does not cross"
    );
    assert_eq!(KeyEvent::from_gpui(&PlatformInput::Other), None);
    assert_eq!(Modifiers::default(), Modifiers::from_gpui(held(false, false)));
}

#[test]
fn cursors_and_appearances_are_mirrored() {
    assert_eq!(Cursor::from_gpui(CursorStyle::ResizeColumn), Cursor::ResizeLeftRight);
    assert_eq!(Cursor::from_gpui(CursorStyle::ResizeUp), Cursor::ResizeUpDown);
    assert_eq!(Cursor::from_gpui(Cursor::IBeam.to_gpui()), Cursor::IBeam);
    assert_eq!(Appearance::from_gpui(WindowAppearance::VibrantDark), Appearance::VibrantDark);
    assert_eq!(Appearance::Light.to_gpui(), WindowAppearance::Light);
    assert_eq!(Point::from_gpui(zero(), scalar(1.0)).to_gpui(), (zero(), scalar(1.0)));
    assert_eq!(MouseButton::from_gpui(MouseButton::Middle.to_gpui()), Some(MouseButton::Middle));
}

#[test]
fn scalars_are_equal_as_numbers() {
    assert!(scalar(0.0).equals(scalar(-0.0)));
    assert!(!scalar(f32::NAN).equals(scalar(f32::NAN)));
    assert!(scalar(1.5).equals(scalar(1.5)));
    assert!(!scalar(1.5).equals(scalar(-1.5)));
    assert!(scalar(-0.0).at_most_zero() && scalar(-3.0).at_most_zero());
    assert!(!scalar(0.001).at_most_zero() && !scalar(f32::NAN).at_most_zero());
}

#[test]
fn ranges_are_cut_to_the_wire() {
    let range = Utf16Range { start: 2, end: 5 };
    assert_eq!(wire_range(range), TextRange { start: 2, end: 5 });
    assert_eq!(range_from_wire(wire_range(range)), range);
}

#[test]
fn answers_are_read_for_what_was_asked() {
    let range = TextRange { start: 1, end: 3 };
    let field = Utf16Range { start: 1, end: 3 };
    assert_eq!(answered_range(Some(InputAnswer::Range(range))), Some(field));
    assert_eq!(answered_range(Some(InputAnswer::Done)), None);
    assert_eq!(answered_range(None), None);
    assert_eq!(answered_index(Some(InputAnswer::Index(6))), Some(6));
    assert_eq!(answered_index(Some(InputAnswer::Nothing)), None);
    assert_eq!(
        selected_text_range(Some(InputAnswer::Selection(Utf16Selection { range, reversed: true }))),
        Some(FieldSelection { range: field, reversed: true })
    );
    let text = TextForRange { text: "ab".to_string(), adjusted: Some(range) };
    assert_eq!(
        text_for_range(Some(InputAnswer::Text(text))),
        Some(("ab".to_string(), Some(field)))
    );
    let origin = WirePoint { x: zero(), y: zero() };
    let bounds = Bounds { origin, size: Extent { width: zero(), height: zero() } };
    assert_eq!(bounds_for_range(Some(InputAnswer::Bounds(bounds))), Some(bounds));
    assert!(key_consumed(Some(InputAnswer::Handled(true))));
    assert!(!key_consumed(Some(InputAnswer::Handled(false))) && !key_consumed(None));
    assert!(accepts_text_input(Some(InputAnswer::Accepts(true))));
    assert!(!accepts_text_input(Some(InputAnswer::Accepts(false))));
    assert_eq!(said(Some(InputAnswer::Nothing)), None);
    assert_eq!(said(Some(InputAnswer::Done)), Some(InputAnswer::Done));
    let configuration = TextInputConfiguration {
        autocorrect: true,
        autocapitalize: Autocapitalize::Never,
        suggestions: false,
        input_action: TextInputAction::Search,
    };
    assert_eq!(
        text_input_configuration(Some(InputAnswer::Configuration(configuration))),
        Some(configuration)
    );
    assert_eq!(text_input_configuration(None), None);
}

#[test]
fn the_guest_answers_from_its_field() {
    let range = TextRange { start: 1, end: 3 };
    assert_eq!(
        window_request(InputQuery::TextForRange(range)),
        WindowRequest::Ask(FieldQuestion::TextForRange(Utf16Range { start: 1, end: 3 }))
    );
    assert_eq!(window_request(InputQuery::TextLength), WindowRequest::Unanswerable);
    match window_request(InputQuery::KeyDown(KeyDownQuery {
        keystroke: keystroke("enter", held(false, false)),
        is_held: false,
    })) {
        WindowRequest::Dispatch(PlatformInput::KeyDown { keystroke, .. }) => {
            assert_eq!(keystroke.key, "enter")
        }
        other => panic!("{other:?}"),
    }
    match replace_text_query(Some(Utf16Range { start: 0, end: 1 }), "x".to_string()) {
        InputQuery::ReplaceTextInRange(replace) => {
            assert_eq!((replace.range.unwrap().end, replace.text.as_str()), (1, "x"))
        }
        other => panic!("{other:?}"),
    }
    match replace_and_mark_query(None, "y".to_string(), Some(Utf16Range { start: 2, end: 2 })) {
        InputQuery::ReplaceAndMarkTextInRange(replace) => {
            assert_eq!(replace.range, None);
            assert_eq!(replace.new_selected_range.unwrap().start, 2);
        }
        other => panic!("{other:?}"),
    }
    assert_eq!(field_answer(None), InputAnswer::Nothing);
    assert_eq!(field_answer(Some(FieldReply::Index(Some(4)))), InputAnswer::Index(4));
    assert_eq!(field_answer(Some(FieldReply::Range(None))), InputAnswer::Nothing);
    assert_eq!(field_answer(Some(FieldReply::Done)), InputAnswer::Done);
    let result = |propagate: bool, default_prevented: bool| {
        key_answer(Some(DispatchResult { propagate, default_prevented }))
    };
    assert_eq!(result(false, false), InputAnswer::Handled(true));
    assert_eq!(result(true, false), InputAnswer::Handled(false));
    assert_eq!(result(true, true), InputAnswer::Handled(true));
    assert_eq!(key_answer(None), InputAnswer::Nothing);
}

#[test]
fn keys_go_to_the_view_first() {
    let mut objects = Objects::new();
    let mut surface = Surface::new();
    let plan = surface.key_down(keystroke("a", held(false, false)), false);
    assert_eq!(plan.query, None, "there is no view to ask");
    let view = objects.connect_id(4, "ViewApi");
    surface.attach(view, true);
    let plan = surface.key_down(keystroke("a", held(false, false)), false);
    assert!(!plan.refresh_clipboard);
    assert!(matches!(plan.query, Some(InputQuery::KeyDown(_))));
    // A modified key may paste, so the clipboard is looked at first.
    let paste = PlatformModifiers { platform: true, ..held(false, false) };
    assert!(surface.key_down(keystroke("v", paste), false).refresh_clipboard);
    // Focus that comes by Tab enters from the edge; focus by pointer does not.
    assert_eq!(surface.focus_gained(true), Some(true));
    assert_eq!(surface.focus_gained(false), Some(false));
    assert!(surface.pointer_down(false));
    assert_eq!(surface.focus_gained(false), None);
    assert!(!surface.pointer_down(true));
}

#[test]
fn the_clipboard_tells_of_changes() {
    let text = |content: &str| Some(content.to_string());
    let mut clipboard = Clipboard::new();
    assert!(clipboard.refresh(None).is_none());
    assert_eq!(clipboard.refresh(text("a")).unwrap().text, text("a"));
    assert!(clipboard.refresh(text("a")).is_none());
    assert_eq!(clipboard.read(text("b")), text("b"));
    assert!(clipboard.refresh(text("b")).is_none(), "it was seen by reading");
    assert_eq!(clipboard.write("c".to_string()), "c");
    assert!(clipboard.refresh(text("c")).is_none(), "it was written from here");
    assert_eq!(clipboard.refresh(None).unwrap().text, None);
}
