//! The data the two interfaces through which UI crosses the boundary carry: a surface is
//! a place where pixels go, a view is the thing drawing there.
//!
//! Coordinates are logical pixels relative to the surface's origin.

use vstd::prelude::*;
use crate::platform_types::{
    CursorStyle, PlatformButton, PlatformInput, PlatformKeystroke, PlatformModifiers, Scalar,
    ScrollDelta, WindowAppearance,
};

verus! {

/// Where a surface's slot is: its bounds in a host window, and that window. A guest keeps
/// one window per host window it hears of, and draws each view as a root of that window
/// at the slot's real origin.
#[derive(Clone, Copy, Debug, PartialEq, Eq, Structural)]
pub struct Geometry {
    /// The slot's origin in the host window, logical pixels.
    pub x: Scalar,
    pub y: Scalar,
    pub width: Scalar,
    pub height: Scalar,
    pub window: HostWindow,
}

/// The host window a surface is in.
#[derive(Clone, Copy, Debug, PartialEq, Eq, Structural)]
pub struct HostWindow {
    /// Stable for the window's lifetime and distinct among the host's windows: surfaces
    /// reporting the same id share one guest window.
    pub id: u64,
    /// The window's viewport, logical pixels.
    pub width: Scalar,
    pub height: Scalar,
    pub scale_factor: Scalar,
    /// Whether the window is the active (key) window.
    pub active: bool,
    pub appearance: Appearance,
}

/// How the host window looks.
#[derive(Clone, Copy, Debug, PartialEq, Eq, Structural)]
pub enum Appearance {
    Light,
    VibrantLight,
    Dark,
    VibrantDark,
}

/// The buttons the protocol carries.
#[derive(Clone, Copy, Debug, PartialEq, Eq, Structural)]
pub enum MouseButton {
    Left,
    Right,
    Middle,
}

/// The modifiers the protocol carries.
#[derive(Clone, Copy, Debug, PartialEq, Eq, Structural)]
pub struct Modifiers {
    pub control: bool,
    pub alt: bool,
    pub shift: bool,
    pub platform: bool,
}

/// A point, relative to the surface's origin.
#[derive(Clone, Copy, Debug, PartialEq, Eq, Structural)]
pub struct Point {
    pub x: Scalar,
    pub y: Scalar,
}

#[derive(Clone, Copy, Debug, PartialEq, Eq, Structural)]
pub struct MouseButtonEvent {
    pub button: MouseButton,
    pub position: Point,
    pub modifiers: Modifiers,
    pub click_count: u32,
}

#[derive(Clone, Copy, Debug, PartialEq, Eq, Structural)]
pub struct MouseMoveEvent {
    pub position: Point,
    pub pressed_button: Option<MouseButton>,
    pub modifiers: Modifiers,
}

#[derive(Clone, Copy, Debug, PartialEq, Eq, Structural)]
pub struct ScrollWheelEvent {
    pub position: Point,
    pub delta_x: Scalar,
    pub delta_y: Scalar,
    /// Whether the delta is in precise pixels (trackpad) or lines (wheel).
    pub precise: bool,
    pub modifiers: Modifiers,
}

/// The pointer left the surface (or the host window while over it). `position` is where
/// it was last seen, possibly outside the slot.
#[derive(Clone, Copy, Debug, PartialEq, Eq, Structural)]
pub struct MouseExitEvent {
    pub position: Point,
    pub pressed_button: Option<MouseButton>,
    pub modifiers: Modifiers,
}

#[derive(Clone, Copy, Debug, PartialEq, Eq, Structural)]
pub enum MouseEvent {
    Down(MouseButtonEvent),
    Up(MouseButtonEvent),
    Move(MouseMoveEvent),
    Scroll(ScrollWheelEvent),
    Exited(MouseExitEvent),
}

/// A keystroke as the protocol carries it.
#[derive(Debug, PartialEq)]
pub struct Keystroke {
    pub modifiers: Modifiers,
    /// The character printed on the pressed key (e.g. "s", "enter", "backspace").
    pub key: String,
    /// The character this keystroke would type, if any.
    pub key_char: Option<String>,
}

#[derive(Debug, PartialEq)]
pub enum KeyEvent {
    Down { keystroke: Keystroke, is_held: bool },
    Up { keystroke: Keystroke },
    /// The held modifiers changed while the surface had focus.
    ModifiersChanged { modifiers: Modifiers },
}

/// The cursors the protocol carries.
#[derive(Clone, Copy, Debug, PartialEq, Eq, Structural)]
pub enum Cursor {
    Arrow,
    IBeam,
    Crosshair,
    ClosedHand,
    OpenHand,
    PointingHand,
    ResizeLeftRight,
    ResizeUpDown,
    OperationNotAllowed,
}

impl HostWindow {
    /// Whether two windows are reported the same, coordinates compared as numbers.
    pub open spec fn spec_same(self, other: HostWindow) -> bool {
        &&& self.id == other.id
        &&& self.width.spec_equals(other.width)
        &&& self.height.spec_equals(other.height)
        &&& self.scale_factor.spec_equals(other.scale_factor)
        &&& self.active == other.active
        &&& self.appearance == other.appearance
    }

    /// Whether two windows are reported the same.
    pub fn same(&self, other: &HostWindow) -> (same: bool)
        ensures
            same == self.spec_same(*other),
    {
        self.id == other.id && self.width.equals(other.width) && self.height.equals(other.height)
            && self.scale_factor.equals(other.scale_factor) && self.active == other.active
            && self.appearance == other.appearance
    }
}

impl Geometry {
    /// Whether two slots are the same, coordinates compared as numbers.
    pub open spec fn spec_same(self, other: Geometry) -> bool {
        &&& self.x.spec_equals(other.x)
        &&& self.y.spec_equals(other.y)
        &&& self.width.spec_equals(other.width)
        &&& self.height.spec_equals(other.height)
        &&& self.window.spec_same(other.window)
    }

    /// Whether two slots are the same.
    pub fn same(&self, other: &Geometry) -> (same: bool)
        ensures
            same == self.spec_same(*other),
    {
        self.x.equals(other.x) && self.y.equals(other.y) && self.width.equals(other.width)
            && self.height.equals(other.height) && self.window.same(&other.window)
    }
}

impl Point {
    /// The point at these coordinates.
    pub fn from_gpui(x: Scalar, y: Scalar) -> (point: Point)
        ensures
            point == (Point { x, y }),
    {
        Point { x, y }
    }

    /// The coordinates of the point.
    pub fn to_gpui(self) -> (coordinates: (Scalar, Scalar))
        ensures
            coordinates == (self.x, self.y),
    {
        (self.x, self.y)
    }
}

impl MouseButton {
    /// The protocol's button for one of the window system: none for the navigation
    /// buttons.
    pub open spec fn spec_from_gpui(button: PlatformButton) -> Option<MouseButton> {
        match button {
            PlatformButton::Left => Some(MouseButton::Left),
            PlatformButton::Right => Some(MouseButton::Right),
            PlatformButton::Middle => Some(MouseButton::Middle),
            PlatformButton::Navigate(_) => None,
        }
    }

    /// The window system's button.
    pub open spec fn spec_to_gpui(self) -> PlatformButton {
        match self {
            MouseButton::Left => PlatformButton::Left,
            MouseButton::Right => PlatformButton::Right,
            MouseButton::Middle => PlatformButton::Middle,
        }
    }

    /// `None` for buttons the protocol does not carry (navigate back/forward).
    pub fn from_gpui(button: PlatformButton) -> (carried: Option<MouseButton>)
        ensures
            carried == MouseButton::spec_from_gpui(button),
    {
        match button {
            PlatformButton::Left => Some(MouseButton::Left),
            PlatformButton::Right => Some(MouseButton::Right),
            PlatformButton::Middle => Some(MouseButton::Middle),
            PlatformButton::Navigate(_) => None,
        }
    }

    pub fn to_gpui(self) -> (button: PlatformButton)
        ensures
            button == self.spec_to_gpui(),
    {
        match self {
            MouseButton::Left => PlatformButton::Left,
            MouseButton::Right => PlatformButton::Right,
            MouseButton::Middle => PlatformButton::Middle,
        }
    }

    /// The button held during a move, as far as the protocol carries it.
    pub open spec fn spec_held(button: Option<PlatformButton>) -> Option<MouseButton> {
        match button {
            Some(button) => MouseButton::spec_from_gpui(button),
            None => None,
        }
    }

    fn held(button: Option<PlatformButton>) -> (carried: Option<MouseButton>)
        ensures
            carried == MouseButton::spec_held(button),
    {
        match button {
            Some(button) => MouseButton::from_gpui(button),
            None => None,
        }
    }

    /// The button held during a move, in the window system's terms.
    pub open spec fn spec_holding(button: Option<MouseButton>) -> Option<PlatformButton> {
        match button {
            Some(button) => Some(button.spec_to_gpui()),
            None => None,
        }
    }

    fn holding(button: Option<MouseButton>) -> (held: Option<PlatformButton>)
        ensures
            held == MouseButton::spec_holding(button),
    {
        match button {
            Some(button) => Some(button.to_gpui()),
            None => None,
        }
    }
}

impl Modifiers {
    /// The modifiers of the protocol among those of the window system: all but the
    /// function key.
    pub open spec fn spec_from_gpui(modifiers: PlatformModifiers) -> Modifiers {
        Modifiers {
            control: modifiers.control,
            alt: modifiers.alt,
            shift: modifiers.shift,
            platform: modifiers.platform,
        }
    }

    /// The window system's modifiers; the function key is not held.
    pub open spec fn spec_to_gpui(self) -> PlatformModifiers {
        PlatformModifiers {
            control: self.control,
            alt: self.alt,
            shift: self.shift,
            platform: self.platform,
            function: false,
        }
    }

    pub fn from_gpui(modifiers: PlatformModifiers) -> (carried: Modifiers)
        ensures
            carried == Modifiers::spec_from_gpui(modifiers),
    {
        Modifiers {
            control: modifiers.control,
            alt: modifiers.alt,
            shift: modifiers.shift,
            platform: modifiers.platform,
        }
    }

    pub fn to_gpui(self) -> (modifiers: PlatformModifiers)
        ensures
            modifiers == self.spec_to_gpui(),
    {
        PlatformModifiers {
            control: self.control,
            alt: self.alt,
            shift: self.shift,
            platform: self.platform,
            function: false,
        }
    }
}

impl Default for Modifiers {
    fn default() -> (modifiers: Modifiers)
        ensures
            modifiers == (Modifiers { control: false, alt: false, shift: false, platform: false }),
    {
        Modifiers { control: false, alt: false, shift: false, platform: false }
    }
}

impl Keystroke {
    /// The keystroke of the protocol for one of the window system.
    pub open spec fn spec_from_gpui(keystroke: PlatformKeystroke) -> Keystroke {
        Keystroke {
            modifiers: Modifiers::spec_from_gpui(keystroke.modifiers),
            key: keystroke.key,
            key_char: keystroke.key_char,
        }
    }

    /// The window system's keystroke.
    pub open spec fn spec_to_gpui(self) -> PlatformKeystroke {
        PlatformKeystroke {
            modifiers: self.modifiers.spec_to_gpui(),
            key: self.key,
            key_char: self.key_char,
        }
    }

    pub fn from_gpui(keystroke: &PlatformKeystroke) -> (carried: Keystroke)
        ensures
            carried == Keystroke::spec_from_gpui(*keystroke),
    {
        Keystroke {
            modifiers: Modifiers::from_gpui(keystroke.modifiers),
            key: keystroke.key.clone(),
            key_char: match &keystroke.key_char {
                Some(key_char) => Some(key_char.clone()),
                None => None,
            },
        }
    }

    pub fn to_gpui(self) -> (keystroke: PlatformKeystroke)
        ensures
            keystroke == self.spec_to_gpui(),
    {
        PlatformKeystroke {
            modifiers: self.modifiers.to_gpui(),
            key: self.key,
            key_char: self.key_char,
        }
    }
}

impl Appearance {
    /// The window system's appearance.
    pub open spec fn spec_to_gpui(self) -> WindowAppearance {
        match self {
            Appearance::Light => WindowAppearance::Light,
            Appearance::VibrantLight => WindowAppearance::VibrantLight,
            Appearance::Dark => WindowAppearance::Dark,
            Appearance::VibrantDark => WindowAppearance::VibrantDark,
        }
    }

    pub fn from_gpui(appearance: WindowAppearance) -> (carried: Appearance)
        ensures
            carried.spec_to_gpui() == appearance,
    {
        match appearance {
            WindowAppearance::Light => Appearance::Light,
            WindowAppearance::VibrantLight => Appearance::VibrantLight,
            WindowAppearance::Dark => Appearance::Dark,
            WindowAppearance::VibrantDark => Appearance::VibrantDark,
        }
    }

    pub fn to_gpui(self) -> (appearance: WindowAppearance)
        ensures
            appearance == self.spec_to_gpui(),
    {
        match self {
            Appearance::Light => WindowAppearance::Light,
            Appearance::VibrantLight => WindowAppearance::VibrantLight,
            Appearance::Dark => WindowAppearance::Dark,
            Appearance::VibrantDark => WindowAppearance::VibrantDark,
        }
    }
}

impl MouseEvent {
    /// The protocol's event for a mouse event of the window system; none for other
    /// events, and none for a press or release of a button the protocol does not carry.
    pub open spec fn spec_from_gpui(input: PlatformInput) -> Option<MouseEvent> {
        match input {
            PlatformInput::MouseDown { button, x, y, modifiers, click_count, .. } => {
                match MouseButton::spec_from_gpui(button) {
                    Some(button) => Some(
                        MouseEvent::Down(
                            MouseButtonEvent {
                                button,
                                position: Point { x, y },
                                modifiers: Modifiers::spec_from_gpui(modifiers),
                                click_count: click_count as u32,
                            },
                        ),
                    ),
                    None => None,
                }
            },
            PlatformInput::MouseUp { button, x, y, modifiers, click_count } => {
                match MouseButton::spec_from_gpui(button) {
                    Some(button) => Some(
                        MouseEvent::Up(
                            MouseButtonEvent {
                                button,
                                position: Point { x, y },
                                modifiers: Modifiers::spec_from_gpui(modifiers),
                                click_count: click_count as u32,
                            },
                        ),
                    ),
                    None => None,
                }
            },
            PlatformInput::MouseMove { x, y, pressed_button, modifiers } => Some(
                MouseEvent::Move(
                    MouseMoveEvent {
                        position: Point { x, y },
                        pressed_button: MouseButton::spec_held(pressed_button),
                        modifiers: Modifiers::spec_from_gpui(modifiers),
                    },
                ),
            ),
            PlatformInput::ScrollWheel { x, y, delta, modifiers } => Some(
                MouseEvent::Scroll(
                    ScrollWheelEvent {
                        position: Point { x, y },
                        delta_x: match delta {
                            ScrollDelta::Pixels { x, .. } => x,
                            ScrollDelta::Lines { x, .. } => x,
                        },
                        delta_y: match delta {
                            ScrollDelta::Pixels { y, .. } => y,
                            ScrollDelta::Lines { y, .. } => y,
                        },
                        precise: delta is Pixels,
                        modifiers: Modifiers::spec_from_gpui(modifiers),
                    },
                ),
            ),
            PlatformInput::MouseExited { x, y, pressed_button, modifiers } => Some(
                MouseEvent::Exited(
                    MouseExitEvent {
                        position: Point { x, y },
                        pressed_button: MouseButton::spec_held(pressed_button),
                        modifiers: Modifiers::spec_from_gpui(modifiers),
                    },
                ),
            ),
            _ => None,
        }
    }

    /// The window system's event.
    pub open spec fn spec_to_platform_input(self) -> PlatformInput {
        match self {
            MouseEvent::Down(event) => PlatformInput::MouseDown {
                button: event.button.spec_to_gpui(),
                x: event.position.x,
                y: event.position.y,
                modifiers: event.modifiers.spec_to_gpui(),
                click_count: event.click_count as usize,
                first_mouse: false,
            },
            MouseEvent::Up(event) => PlatformInput::MouseUp {
                button: event.button.spec_to_gpui(),
                x: event.position.x,
                y: event.position.y,
                modifiers: event.modifiers.spec_to_gpui(),
                click_count: event.click_count as usize,
            },
            MouseEvent::Move(event) => PlatformInput::MouseMove {
                x: event.position.x,
                y: event.position.y,
                pressed_button: MouseButton::spec_holding(event.pressed_button),
                modifiers: event.modifiers.spec_to_gpui(),
            },
            MouseEvent::Scroll(event) => PlatformInput::ScrollWheel {
                x: event.position.x,
                y: event.position.y,
                delta: if event.precise {
                    ScrollDelta::Pixels { x: event.delta_x, y: event.delta_y }
                } else {
                    ScrollDelta::Lines { x: event.delta_x, y: event.delta_y }
                },
                modifiers: event.modifiers.spec_to_gpui(),
            },
            MouseEvent::Exited(event) => PlatformInput::MouseExited {
                x: event.position.x,
                y: event.position.y,
                pressed_button: MouseButton::spec_holding(event.pressed_button),
                modifiers: event.modifiers.spec_to_gpui(),
            },
        }
    }

    /// Translate a host element event into a wire event. `None` for buttons the protocol
    /// does not carry.
    pub fn from_gpui(input: &PlatformInput) -> (event: Option<MouseEvent>)
        ensures
            event == MouseEvent::spec_from_gpui(*input),
    {
        match input {
            PlatformInput::MouseDown { button, x, y, modifiers, click_count, .. } => {
                match MouseButton::from_gpui(*button) {
                    Some(button) => Some(
                        MouseEvent::Down(
                            MouseButtonEvent {
                                button,
                                position: Point { x: *x, y: *y },
                                modifiers: Modifiers::from_gpui(*modifiers),
                                click_count: *click_count as u32,
                            },
                        ),
                    ),
                    None => None,
                }
            },
            PlatformInput::MouseUp { button, x, y, modifiers, click_count } => {
                match MouseButton::from_gpui(*button) {
                    Some(button) => Some(
                        MouseEvent::Up(
                            MouseButtonEvent {
                                button,
                                position: Point { x: *x, y: *y },
                                modifiers: Modifiers::from_gpui(*modifiers),
                                click_count: *click_count as u32,
                            },
                        ),
                    ),
                    None => None,
                }
            },
            PlatformInput::MouseMove { x, y, pressed_button, modifiers } => Some(
                MouseEvent::Move(
                    MouseMoveEvent {
                        position: Point { x: *x, y: *y },
                        pressed_button: MouseButton::held(*pressed_button),
                        modifiers: Modifiers::from_gpui(*modifiers),
                    },
                ),
            ),
            PlatformInput::ScrollWheel { x, y, delta, modifiers } => {
                let (delta_x, delta_y, precise) = match *delta {
                    ScrollDelta::Pixels { x, y } => (x, y, true),
                    ScrollDelta::Lines { x, y } => (x, y, false),
                };
                Some(
                    MouseEvent::Scroll(
                        ScrollWheelEvent {
                            position: Point { x: *x, y: *y },
                            delta_x,
                            delta_y,
                            precise,
                            modifiers: Modifiers::from_gpui(*modifiers),
                        },
                    ),
                )
            },
            PlatformInput::MouseExited { x, y, pressed_button, modifiers } => Some(
                MouseEvent::Exited(
                    MouseExitEvent {
                        position: Point { x: *x, y: *y },
                        pressed_button: MouseButton::held(*pressed_button),
                        modifiers: Modifiers::from_gpui(*modifiers),
                    },
                ),
            ),
            _ => None,
        }
    }

    /// Translate a wire event into one the guest's windows take.
    pub fn to_platform_input(self) -> (input: PlatformInput)
        ensures
            input == self.spec_to_platform_input(),
    {
        match self {
            MouseEvent::Down(event) => PlatformInput::MouseDown {
                button: event.button.to_gpui(),
                x: event.position.x,
                y: event.position.y,
                modifiers: event.modifiers.to_gpui(),
                click_count: event.click_count as usize,
                first_mouse: false,
            },
            MouseEvent::Up(event) => PlatformInput::MouseUp {
                button: event.button.to_gpui(),
                x: event.position.x,
                y: event.position.y,
                modifiers: event.modifiers.to_gpui(),
                click_count: event.click_count as usize,
            },
            MouseEvent::Move(event) => PlatformInput::MouseMove {
                x: event.position.x,
                y: event.position.y,
                pressed_button: MouseButton::holding(event.pressed_button),
                modifiers: event.modifiers.to_gpui(),
            },
            MouseEvent::Scroll(event) => PlatformInput::ScrollWheel {
                x: event.position.x,
                y: event.position.y,
                delta: if event.precise {
                    ScrollDelta::Pixels { x: event.delta_x, y: event.delta_y }
                } else {
                    ScrollDelta::Lines { x: event.delta_x, y: event.delta_y }
                },
                modifiers: event.modifiers.to_gpui(),
            },
            MouseEvent::Exited(event) => PlatformInput::MouseExited {
                x: event.position.x,
                y: event.position.y,
                pressed_button: MouseButton::holding(event.pressed_button),
                modifiers: event.modifiers.to_gpui(),
            },
        }
    }
}

impl KeyEvent {
    /// The protocol's event for a key event of the window system; none for other events.
    pub open spec fn spec_from_gpui(input: PlatformInput) -> Option<KeyEvent> {
        match input {
            PlatformInput::KeyDown { keystroke, is_held, .. } => Some(
                KeyEvent::Down { keystroke: Keystroke::spec_from_gpui(keystroke), is_held },
            ),
            PlatformInput::KeyUp { keystroke } => Some(
                KeyEvent::Up { keystroke: Keystroke::spec_from_gpui(keystroke) },
            ),
            PlatformInput::ModifiersChanged { modifiers } => Some(
                KeyEvent::ModifiersChanged { modifiers: Modifiers::spec_from_gpui(modifiers) },
            ),
            _ => None,
        }
    }

    /// The window system's event.
    pub open spec fn spec_to_platform_input(self) -> PlatformInput {
        match self {
            KeyEvent::Down { keystroke, is_held } => PlatformInput::KeyDown {
                keystroke: keystroke.spec_to_gpui(),
                is_held,
                prefer_character_input: false,
            },
            KeyEvent::Up { keystroke } => PlatformInput::KeyUp {
                keystroke: keystroke.spec_to_gpui(),
            },
            KeyEvent::ModifiersChanged { modifiers } => PlatformInput::ModifiersChanged {
                modifiers: modifiers.spec_to_gpui(),
            },
        }
    }

    pub fn from_gpui(input: &PlatformInput) -> (event: Option<KeyEvent>)
        ensures
            event == KeyEvent::spec_from_gpui(*input),
    {
        match input {
            PlatformInput::KeyDown { keystroke, is_held, .. } => Some(
                KeyEvent::Down { keystroke: Keystroke::from_gpui(keystroke), is_held: *is_held },
            ),
            PlatformInput::KeyUp { keystroke } => Some(
                KeyEvent::Up { keystroke: Keystroke::from_gpui(keystroke) },
            ),
            PlatformInput::ModifiersChanged { modifiers } => Some(
                KeyEvent::ModifiersChanged { modifiers: Modifiers::from_gpui(*modifiers) },
            ),
            _ => None,
        }
    }

    pub fn to_platform_input(self) -> (input: PlatformInput)
        ensures
            input == self.spec_to_platform_input(),
    {
        match self {
            KeyEvent::Down { keystroke, is_held } => PlatformInput::KeyDown {
                keystroke: keystroke.to_gpui(),
                is_held,
                prefer_character_input: false,
            },
            KeyEvent::Up { keystroke } => PlatformInput::KeyUp { keystroke: keystroke.to_gpui() },
            KeyEvent::ModifiersChanged { modifiers } => PlatformInput::ModifiersChanged {
                modifiers: modifiers.to_gpui(),
            },
        }
    }
}

impl Cursor {
    /// The protocol's cursor that stands for one of the window system.
    pub open spec fn spec_from_gpui(style: CursorStyle) -> Cursor {
        match style {
            CursorStyle::Arrow | CursorStyle::ContextualMenu => Cursor::Arrow,
            CursorStyle::IBeam | CursorStyle::IBeamCursorForVerticalLayout => Cursor::IBeam,
            CursorStyle::Crosshair => Cursor::Crosshair,
            CursorStyle::ClosedHand => Cursor::ClosedHand,
            CursorStyle::OpenHand => Cursor::OpenHand,
            CursorStyle::PointingHand | CursorStyle::DragLink | CursorStyle::DragCopy =>
                Cursor::PointingHand,
            CursorStyle::ResizeLeft | CursorStyle::ResizeRight | CursorStyle::ResizeLeftRight
            | CursorStyle::ResizeColumn => Cursor::ResizeLeftRight,
            CursorStyle::ResizeUp | CursorStyle::ResizeDown | CursorStyle::ResizeUpDown
            | CursorStyle::ResizeRow | CursorStyle::ResizeUpLeftDownRight
            | CursorStyle::ResizeUpRightDownLeft => Cursor::ResizeUpDown,
            CursorStyle::OperationNotAllowed => Cursor::OperationNotAllowed,
        }
    }

    /// The window system's cursor.
    pub open spec fn spec_to_gpui(self) -> CursorStyle {
        match self {
            Cursor::Arrow => CursorStyle::Arrow,
            Cursor::IBeam => CursorStyle::IBeam,
            Cursor::Crosshair => CursorStyle::Crosshair,
            Cursor::ClosedHand => CursorStyle::ClosedHand,
            Cursor::OpenHand => CursorStyle::OpenHand,
            Cursor::PointingHand => CursorStyle::PointingHand,
            Cursor::ResizeLeftRight => CursorStyle::ResizeLeftRight,
            Cursor::ResizeUpDown => CursorStyle::ResizeUpDown,
            Cursor::OperationNotAllowed => CursorStyle::OperationNotAllowed,
        }
    }

    pub fn from_gpui(style: CursorStyle) -> (cursor: Cursor)
        ensures
            cursor == Cursor::spec_from_gpui(style),
    {
        match style {
            CursorStyle::Arrow | CursorStyle::ContextualMenu => Cursor::Arrow,
            CursorStyle::IBeam | CursorStyle::IBeamCursorForVerticalLayout => Cursor::IBeam,
            CursorStyle::Crosshair => Cursor::Crosshair,
            CursorStyle::ClosedHand => Cursor::ClosedHand,
            CursorStyle::OpenHand => Cursor::OpenHand,
            CursorStyle::PointingHand | CursorStyle::DragLink | CursorStyle::DragCopy =>
                Cursor::PointingHand,
            CursorStyle::ResizeLeft | CursorStyle::ResizeRight | CursorStyle::ResizeLeftRight
            | CursorStyle::ResizeColumn => Cursor::ResizeLeftRight,
            CursorStyle::ResizeUp | CursorStyle::ResizeDown | CursorStyle::ResizeUpDown
            | CursorStyle::ResizeRow | CursorStyle::ResizeUpLeftDownRight
            | CursorStyle::ResizeUpRightDownLeft => Cursor::ResizeUpDown,
            CursorStyle::OperationNotAllowed => Cursor::OperationNotAllowed,
        }
    }

    pub fn to_gpui(self) -> (style: CursorStyle)
        ensures
            style == self.spec_to_gpui(),
    {
        match self {
            Cursor::Arrow => CursorStyle::Arrow,
            Cursor::IBeam => CursorStyle::IBeam,
            Cursor::Crosshair => CursorStyle::Crosshair,
            Cursor::ClosedHand => CursorStyle::ClosedHand,
            Cursor::OpenHand => CursorStyle::OpenHand,
            Cursor::PointingHand => CursorStyle::PointingHand,
            Cursor::ResizeLeftRight => CursorStyle::ResizeLeftRight,
            Cursor::ResizeUpDown => CursorStyle::ResizeUpDown,
            Cursor::OperationNotAllowed => CursorStyle::OperationNotAllowed,
        }
    }
}

/// Every mouse event the protocol carries is the same event again after the guest's
/// windows took it.
pub proof fn mouse_events_survive(event: MouseEvent)
    ensures
        MouseEvent::spec_from_gpui(event.spec_to_platform_input()) == Some(event),
{
}

/// Every key event the protocol carries is the same event again after the guest's windows
/// took it.
pub proof fn key_events_survive(event: KeyEvent)
    ensures
        KeyEvent::spec_from_gpui(event.spec_to_platform_input()) == Some(event),
{
}

/// Every cursor the protocol carries comes back as itself.
pub proof fn cursors_survive(cursor: Cursor)
    ensures
        Cursor::spec_from_gpui(cursor.spec_to_gpui()) == cursor,
{
}

/// No event is both a mouse event and a key event.
pub proof fn events_are_of_one_kind(input: PlatformInput)
    ensures
        MouseEvent::spec_from_gpui(input) is None || KeyEvent::spec_from_gpui(input) is None,
{
}

/// A slot counts as the same only where nothing about it changed: not where it is, not how
/// large it is, and nothing about its window, coordinates compared as numbers.
pub proof fn slots_are_the_same_in_everything(known: Geometry, now: Geometry)
    ensures
        known.spec_same(now) <==> {
            &&& known.x.spec_equals(now.x)
            &&& known.y.spec_equals(now.y)
            &&& known.width.spec_equals(now.width)
            &&& known.height.spec_equals(now.height)
            &&& known.window.id == now.window.id
            &&& known.window.width.spec_equals(now.window.width)
            &&& known.window.height.spec_equals(now.window.height)
            &&& known.window.scale_factor.spec_equals(now.window.scale_factor)
            &&& known.window.active == now.window.active
            &&& known.window.appearance == now.window.appearance
        },
        known.window.spec_same(now.window) <==> {
            &&& known.window.id == now.window.id
            &&& known.window.width.spec_equals(now.window.width)
            &&& known.window.height.spec_equals(now.window.height)
            &&& known.window.scale_factor.spec_equals(now.window.scale_factor)
            &&& known.window.active == now.window.active
            &&& known.window.appearance == now.window.appearance
        },
{
}

/// Buttons stay the buttons they are, in both directions; the navigation buttons are not
/// carried.
pub proof fn buttons_stay_themselves(button: PlatformButton)
    ensures
        MouseButton::spec_from_gpui(button) == Some(MouseButton::Left) <==> button is Left,
        MouseButton::spec_from_gpui(button) == Some(MouseButton::Right) <==> button is Right,
        MouseButton::spec_from_gpui(button) == Some(MouseButton::Middle) <==> button is Middle,
        MouseButton::spec_from_gpui(button) is None <==> button is Navigate,
        MouseButton::Left.spec_to_gpui() is Left,
        MouseButton::Right.spec_to_gpui() is Right,
        MouseButton::Middle.spec_to_gpui() is Middle,
{
}

/// Modifiers stay the modifiers they are, in both directions; the function key is not carried.
pub proof fn modifiers_stay_themselves(reported: PlatformModifiers, carried: Modifiers)
    ensures
        Modifiers::spec_from_gpui(reported).control == reported.control,
        Modifiers::spec_from_gpui(reported).alt == reported.alt,
        Modifiers::spec_from_gpui(reported).shift == reported.shift,
        Modifiers::spec_from_gpui(reported).platform == reported.platform,
        carried.spec_to_gpui().control == carried.control,
        carried.spec_to_gpui().alt == carried.alt,
        carried.spec_to_gpui().shift == carried.shift,
        carried.spec_to_gpui().platform == carried.platform,
        !carried.spec_to_gpui().function,
{
}

/// Keystrokes keep the key that was pressed and the character it types, and their modifiers, in
/// both directions.
pub proof fn keystrokes_stay_themselves(reported: PlatformKeystroke, carried: Keystroke)
    ensures
        Keystroke::spec_from_gpui(reported).key == reported.key,
        Keystroke::spec_from_gpui(reported).key_char == reported.key_char,
        Keystroke::spec_from_gpui(reported).modifiers == Modifiers::spec_from_gpui(
            reported.modifiers,
        ),
        carried.spec_to_gpui().key == carried.key,
        carried.spec_to_gpui().key_char == carried.key_char,
        carried.spec_to_gpui().modifiers == carried.modifiers.spec_to_gpui(),
{
}

/// Windows look at the other end as they look at this one.
pub proof fn appearances_stay_themselves()
    ensures
        Appearance::Light.spec_to_gpui() is Light,
        Appearance::VibrantLight.spec_to_gpui() is VibrantLight,
        Appearance::Dark.spec_to_gpui() is Dark,
        Appearance::VibrantDark.spec_to_gpui() is VibrantDark,
{
}

/// A press of a button that is carried arrives as a press of it, and a release as a release:
/// where the pointer was, with the modifiers held and the clicks counted.
pub proof fn presses_arrive_as_presses(input: PlatformInput)
    ensures
        input matches PlatformInput::MouseDown { button, x, y, modifiers, click_count, .. } ==> {
            match MouseEvent::spec_from_gpui(input) {
                Some(MouseEvent::Down(event)) => {
                    &&& MouseButton::spec_from_gpui(button) == Some(event.button)
                    &&& event.position.x == x
                    &&& event.position.y == y
                    &&& event.modifiers == Modifiers::spec_from_gpui(modifiers)
                    &&& click_count <= u32::MAX ==> event.click_count == click_count
                },
                None => button is Navigate,
                _ => false,
            }
        },
        input matches PlatformInput::MouseUp { button, x, y, modifiers, click_count } ==> {
            match MouseEvent::spec_from_gpui(input) {
                Some(MouseEvent::Up(event)) => {
                    &&& MouseButton::spec_from_gpui(button) == Some(event.button)
                    &&& event.position.x == x
                    &&& event.position.y == y
                    &&& event.modifiers == Modifiers::spec_from_gpui(modifiers)
                    &&& click_count <= u32::MAX ==> event.click_count == click_count
                },
                None => button is Navigate,
                _ => false,
            }
        },
{
}

/// Moves, scrolls and leaving arrive as what they are: where the pointer was, with the
/// modifiers held, with the button held where it is carried, and scrolling as far across and
/// down as the wheel turned, precise where it was by pixels.
pub proof fn moves_and_scrolls_arrive_as_made(input: PlatformInput)
    ensures
        input matches PlatformInput::MouseMove { x, y, pressed_button, modifiers } ==> (
        MouseEvent::spec_from_gpui(input) matches Some(MouseEvent::Move(event)) && event.position.x
            == x && event.position.y == y && event.modifiers == Modifiers::spec_from_gpui(modifiers)
            && event.pressed_button == (match pressed_button {
            Some(button) => MouseButton::spec_from_gpui(button),
            None => None,
        })),
        input matches PlatformInput::MouseExited { x, y, pressed_button, modifiers } ==> (
        MouseEvent::spec_from_gpui(input) matches Some(MouseEvent::Exited(event))
            && event.position.x == x && event.position.y == y && event.modifiers
            == Modifiers::spec_from_gpui(modifiers) && event.pressed_button == (
        match pressed_button {
            Some(button) => MouseButton::spec_from_gpui(button),
            None => None,
        })),
        input matches PlatformInput::ScrollWheel { x, y, delta, modifiers } ==> (
        MouseEvent::spec_from_gpui(input) matches Some(MouseEvent::Scroll(event))
            && event.position.x == x && event.position.y == y && event.modifiers
            == Modifiers::spec_from_gpui(modifiers) && (match delta {
            ScrollDelta::Pixels { x: across, y: down } => event.precise && event.delta_x == across
                && event.delta_y == down,
            ScrollDelta::Lines { x: across, y: down } => !event.precise && event.delta_x == across
                && event.delta_y == down,
        })),
{
}

/// What a guest's window takes is the event that crossed: of its kind, where the pointer was,
/// with the button and the modifiers it crossed with.
pub proof fn windows_take_what_crossed(event: MouseEvent)
    ensures
        match (event, event.spec_to_platform_input()) {
            (
                MouseEvent::Down(event),
                PlatformInput::MouseDown { button, x, y, modifiers, click_count, first_mouse },
            ) => {
                &&& button == event.button.spec_to_gpui()
                &&& x == event.position.x
                &&& y == event.position.y
                &&& modifiers == event.modifiers.spec_to_gpui()
                &&& click_count == event.click_count
                &&& !first_mouse
            },
            (
                MouseEvent::Up(event),
                PlatformInput::MouseUp { button, x, y, modifiers, click_count },
            ) => {
                &&& button == event.button.spec_to_gpui()
                &&& x == event.position.x
                &&& y == event.position.y
                &&& modifiers == event.modifiers.spec_to_gpui()
                &&& click_count == event.click_count
            },
            (
                MouseEvent::Move(event),
                PlatformInput::MouseMove { x, y, pressed_button, modifiers },
            ) => {
                &&& x == event.position.x
                &&& y == event.position.y
                &&& pressed_button is Some <==> event.pressed_button is Some
                &&& pressed_button matches Some(button) ==> button
                    == event.pressed_button->0.spec_to_gpui()
                &&& modifiers == event.modifiers.spec_to_gpui()
            },
            (
                MouseEvent::Scroll(event),
                PlatformInput::ScrollWheel { x, y, delta, modifiers },
            ) => {
                &&& x == event.position.x
                &&& y == event.position.y
                &&& modifiers == event.modifiers.spec_to_gpui()
                &&& match delta {
                    ScrollDelta::Pixels { x: across, y: down } => event.precise && across
                        == event.delta_x && down == event.delta_y,
                    ScrollDelta::Lines { x: across, y: down } => !event.precise && across
                        == event.delta_x && down == event.delta_y,
                }
            },
            (
                MouseEvent::Exited(event),
                PlatformInput::MouseExited { x, y, pressed_button, modifiers },
            ) => {
                &&& x == event.position.x
                &&& y == event.position.y
                &&& pressed_button is Some <==> event.pressed_button is Some
                &&& pressed_button matches Some(button) ==> button
                    == event.pressed_button->0.spec_to_gpui()
                &&& modifiers == event.modifiers.spec_to_gpui()
            },
            _ => false,
        },
{
}

/// Keys arrive as they were struck: a press as a press, held where it was held, a release as a
/// release; and nothing but keys arrives as one.
pub proof fn keys_arrive_as_struck(input: PlatformInput, event: KeyEvent)
    ensures
        match (input, KeyEvent::spec_from_gpui(input)) {
            (
                PlatformInput::KeyDown { keystroke, is_held, .. },
                Some(KeyEvent::Down { keystroke: carried, is_held: held }),
            ) => carried == Keystroke::spec_from_gpui(keystroke) && held == is_held,
            (
                PlatformInput::KeyUp { keystroke },
                Some(KeyEvent::Up { keystroke: carried }),
            ) => carried == Keystroke::spec_from_gpui(keystroke),
            (
                PlatformInput::ModifiersChanged { modifiers },
                Some(KeyEvent::ModifiersChanged { modifiers: carried }),
            ) => carried == Modifiers::spec_from_gpui(modifiers),
            (input, None) => !(input is KeyDown) && !(input is KeyUp) && !(
            input is ModifiersChanged),
            _ => false,
        },
        match (event, event.spec_to_platform_input()) {
            (
                KeyEvent::Down { keystroke, is_held },
                PlatformInput::KeyDown { keystroke: struck, is_held: held, prefer_character_input },
            ) => struck == keystroke.spec_to_gpui() && held == is_held && !prefer_character_input,
            (KeyEvent::Up { keystroke }, PlatformInput::KeyUp { keystroke: struck }) => struck
                == keystroke.spec_to_gpui(),
            (
                KeyEvent::ModifiersChanged { modifiers },
                PlatformInput::ModifiersChanged { modifiers: held },
            ) => held == modifiers.spec_to_gpui(),
            _ => false,
        },
{
}

/// Cursors show at the other end as what they are there for: those the protocol carries as
/// themselves, and those it does not as the one they resemble, resizing along an axis as
/// resizing along that axis.
pub proof fn cursors_show_what_they_are_for(style: CursorStyle)
    ensures
        ({
            let shown = Cursor::spec_from_gpui(style).spec_to_gpui();
            &&& style is Arrow || style is ContextualMenu <==> shown is Arrow
            &&& style is IBeam || style is IBeamCursorForVerticalLayout <==> shown is IBeam
            &&& style is Crosshair <==> shown is Crosshair
            &&& style is ClosedHand <==> shown is ClosedHand
            &&& style is OpenHand <==> shown is OpenHand
            &&& style is PointingHand || style is DragLink || style is DragCopy <==> shown
                is PointingHand
            &&& style is ResizeLeft || style is ResizeRight || style is ResizeLeftRight || style
                is ResizeColumn <==> shown is ResizeLeftRight
            &&& style is ResizeUp || style is ResizeDown || style is ResizeUpDown || style
                is ResizeRow || style is ResizeUpLeftDownRight || style is ResizeUpRightDownLeft
                <==> shown is ResizeUpDown
            &&& style is OperationNotAllowed <==> shown is OperationNotAllowed
        }),
        Cursor::Arrow.spec_to_gpui() is Arrow,
        Cursor::IBeam.spec_to_gpui() is IBeam,
        Cursor::Crosshair.spec_to_gpui() is Crosshair,
        Cursor::ClosedHand.spec_to_gpui() is ClosedHand,
        Cursor::OpenHand.spec_to_gpui() is OpenHand,
        Cursor::PointingHand.spec_to_gpui() is PointingHand,
        Cursor::ResizeLeftRight.spec_to_gpui() is ResizeLeftRight,
        Cursor::ResizeUpDown.spec_to_gpui() is ResizeUpDown,
        Cursor::OperationNotAllowed.spec_to_gpui() is OperationNotAllowed,
{
}

} // verus!
