//! The window system's vocabulary as plain values: the input events, keystrokes, cursors
//! and appearances the surrounding UI framework hands over and takes back.

use vstd::prelude::*;

verus! {

/// A floating-point coordinate, held as its IEEE 754 single-precision bits. Coordinates
/// pass through unread; arithmetic on them is the UI framework's.
#[derive(Clone, Copy, Debug, PartialEq, Eq, Structural)]
pub struct Scalar {
    pub bits: u32,
}

/// Where the negative scalars begin.
pub const SIGN_BIT: u32 = 0x8000_0000;

/// The bits of infinity; larger magnitudes are no numbers.
pub const INFINITY_BITS: u32 = 0x7f80_0000;

impl Scalar {
    /// The bits without the sign.
    pub open spec fn magnitude(self) -> int {
        if self.bits >= SIGN_BIT {
            self.bits - SIGN_BIT
        } else {
            self.bits as int
        }
    }

    /// Whether this is no number.
    pub open spec fn is_nan(self) -> bool {
        self.magnitude() > INFINITY_BITS
    }

    /// Whether two scalars are equal as numbers: no-number equals nothing, and the two
    /// zeros are equal.
    pub open spec fn spec_equals(self, other: Scalar) -> bool {
        &&& !self.is_nan()
        &&& !other.is_nan()
        &&& self.bits == other.bits || (self.magnitude() == 0 && other.magnitude() == 0)
    }

    /// Whether this is a number that is zero or negative.
    pub open spec fn spec_at_most_zero(self) -> bool {
        !self.is_nan() && (self.bits >= SIGN_BIT || self.bits == 0)
    }

    fn unsigned(self) -> (magnitude: u32)
        ensures
            magnitude == self.magnitude(),
    {
        if self.bits >= SIGN_BIT {
            self.bits - SIGN_BIT
        } else {
            self.bits
        }
    }

    /// Whether two scalars are equal as numbers.
    pub fn equals(self, other: Scalar) -> (equal: bool)
        ensures
            equal == self.spec_equals(other),
    {
        let this: u32 = self.unsigned();
        let that: u32 = other.unsigned();
        this <= INFINITY_BITS && that <= INFINITY_BITS && (self.bits == other.bits || (this == 0
            && that == 0))
    }

    /// Whether this is a number that is zero or negative.
    pub fn at_most_zero(self) -> (at_most: bool)
        ensures
            at_most == self.spec_at_most_zero(),
    {
        self.unsigned() <= INFINITY_BITS && (self.bits >= SIGN_BIT || self.bits == 0)
    }
}

/// Scalars are compared as numbers: what is no number equals nothing, not even itself; the two
/// zeros are equal; any other two numbers are equal where their bits are.
pub proof fn scalars_compare_as_numbers(one: Scalar, other: Scalar)
    ensures
        one.is_nan() <==> 0x7f80_0000 < one.bits < 0x8000_0000 || 0xff80_0000 < one.bits,
        one.is_nan() ==> !one.spec_equals(other) && !other.spec_equals(one) && !one.spec_equals(one),
        !one.is_nan() ==> one.spec_equals(one),
        one.bits == 0 && other.bits == 0x8000_0000 ==> one.spec_equals(other),
        one.spec_equals(other) == other.spec_equals(one),
        one.bits != 0 && one.bits != 0x8000_0000 && one.bits != other.bits ==> !one.spec_equals(
            other,
        ),
{
}

/// What is at most zero: the two zeros and every negative number, and nothing else.
pub proof fn only_zeros_and_negatives_are_at_most_zero(scalar: Scalar)
    ensures
        scalar.bits == 0 ==> scalar.spec_at_most_zero(),
        0x8000_0000 <= scalar.bits <= 0xff80_0000 ==> scalar.spec_at_most_zero(),
        0 < scalar.bits < 0x8000_0000 ==> !scalar.spec_at_most_zero(),
        scalar.bits > 0xff80_0000 ==> !scalar.spec_at_most_zero(),
{
}

/// Which way a navigation button points.
#[derive(Clone, Copy, Debug, PartialEq, Eq, Structural)]
pub enum NavigationDirection {
    Back,
    Forward,
}

/// A mouse button of the window system.
#[derive(Clone, Copy, Debug, PartialEq, Eq, Structural)]
pub enum PlatformButton {
    Left,
    Right,
    Middle,
    Navigate(NavigationDirection),
}

/// The modifiers the window system reports.
#[derive(Clone, Copy, Debug, PartialEq, Eq, Structural)]
pub struct PlatformModifiers {
    pub control: bool,
    pub alt: bool,
    pub shift: bool,
    pub platform: bool,
    pub function: bool,
}

/// A keystroke the window system reports.
#[derive(Debug, PartialEq)]
pub struct PlatformKeystroke {
    pub modifiers: PlatformModifiers,
    pub key: String,
    pub key_char: Option<String>,
}

/// How a window looks.
#[derive(Clone, Copy, Debug, PartialEq, Eq, Structural)]
pub enum WindowAppearance {
    Light,
    VibrantLight,
    Dark,
    VibrantDark,
}

/// The cursors of the window system.
#[derive(Clone, Copy, Debug, PartialEq, Eq, Structural)]
pub enum CursorStyle {
    Arrow,
    IBeam,
    Crosshair,
    ClosedHand,
    OpenHand,
    PointingHand,
    ResizeLeft,
    ResizeRight,
    ResizeLeftRight,
    ResizeUp,
    ResizeDown,
    ResizeUpDown,
    ResizeUpLeftDownRight,
    ResizeUpRightDownLeft,
    ResizeColumn,
    ResizeRow,
    IBeamCursorForVerticalLayout,
    OperationNotAllowed,
    DragLink,
    DragCopy,
    ContextualMenu,
}

/// How far a wheel turned: by pixels (a trackpad) or by lines (a wheel).
#[derive(Clone, Copy, Debug, PartialEq, Eq, Structural)]
pub enum ScrollDelta {
    Pixels { x: Scalar, y: Scalar },
    Lines { x: Scalar, y: Scalar },
}

/// An input event of the window system. Positions are relative to the surface the event
/// is for.
#[derive(Debug, PartialEq)]
pub enum PlatformInput {
    MouseDown {
        button: PlatformButton,
        x: Scalar,
        y: Scalar,
        modifiers: PlatformModifiers,
        click_count: usize,
        first_mouse: bool,
    },
    MouseUp {
        button: PlatformButton,
        x: Scalar,
        y: Scalar,
        modifiers: PlatformModifiers,
        click_count: usize,
    },
    MouseMove {
        x: Scalar,
        y: Scalar,
        pressed_button: Option<PlatformButton>,
        modifiers: PlatformModifiers,
    },
    ScrollWheel { x: Scalar, y: Scalar, delta: ScrollDelta, modifiers: PlatformModifiers },
    MouseExited {
        x: Scalar,
        y: Scalar,
        pressed_button: Option<PlatformButton>,
        modifiers: PlatformModifiers,
    },
    KeyDown { keystroke: PlatformKeystroke, is_held: bool, prefer_character_input: bool },
    KeyUp { keystroke: PlatformKeystroke },
    ModifiersChanged { modifiers: PlatformModifiers },
    /// An event no surface forwards.
    Other,
}

} // verus!
