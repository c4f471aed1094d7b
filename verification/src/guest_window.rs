//! A guest window: the mirror of one host window, with that window's size and scale
//! factor. Every host surface in the window is a root attached to it at the slot's real
//! origin.

use vstd::prelude::*;
use crate::display_list::{zero, WirePoint};
use crate::platform_types::{PlatformInput, PlatformModifiers, Scalar, WindowAppearance};
use crate::surface::{Appearance, HostWindow};

verus! {

/// Which callbacks the UI framework registered on a window.
#[derive(Clone, Copy, Debug, PartialEq, Eq, Structural)]
pub struct Callbacks {
    pub request_frame: bool,
    pub input: bool,
    pub resize: bool,
    pub active: bool,
    pub appearance: bool,
}

/// A callback of a window that is due, with what it is told.
#[derive(Clone, Copy, Debug, PartialEq, Eq, Structural)]
pub enum WindowCallback {
    Resize { width: Scalar, height: Scalar, scale_factor: Scalar },
    Active(bool),
    Appearance,
}

/// The state of one guest window.
#[derive(Clone, Copy, Debug, PartialEq, Eq, Structural)]
pub struct PluginWindowState {
    /// The host window this one mirrors.
    pub host: HostWindow,
    pub mouse_position: WirePoint,
    /// The modifiers the last input event carried.
    pub modifiers: PlatformModifiers,
    /// Whether the pointer is over one of this window's surfaces.
    pub hovered: bool,
    pub callbacks: Callbacks,
    /// Whether a focused text field takes input.
    pub input_handler: bool,
    /// The framework's handle on the window, once it is open.
    pub handle: Option<u64>,
    /// The framework dropped the window: nothing may be dispatched to it again.
    pub closed: bool,
}

/// No callback at all.
#[verifier::allow_in_spec]
pub fn no_callbacks() -> (callbacks: Callbacks)
    returns
        (Callbacks {
            request_frame: false,
            input: false,
            resize: false,
            active: false,
            appearance: false,
        }),
{
    Callbacks {
        request_frame: false,
        input: false,
        resize: false,
        active: false,
        appearance: false,
    }
}

/// No modifier at all.
#[verifier::allow_in_spec]
pub fn no_modifiers() -> (modifiers: PlatformModifiers)
    returns
        (PlatformModifiers {
            control: false,
            alt: false,
            shift: false,
            platform: false,
            function: false,
        }),
{
    PlatformModifiers { control: false, alt: false, shift: false, platform: false, function: false }
}

/// Where a pointer event happened.
pub open spec fn pointer_position(input: PlatformInput) -> Option<WirePoint> {
    match input {
        PlatformInput::MouseDown { x, y, .. } => Some(WirePoint { x, y }),
        PlatformInput::MouseUp { x, y, .. } => Some(WirePoint { x, y }),
        PlatformInput::MouseMove { x, y, .. } => Some(WirePoint { x, y }),
        PlatformInput::ScrollWheel { x, y, .. } => Some(WirePoint { x, y }),
        PlatformInput::MouseExited { x, y, .. } => Some(WirePoint { x, y }),
        _ => None,
    }
}

/// The modifiers an event carries.
pub open spec fn carried_modifiers(input: PlatformInput) -> Option<PlatformModifiers> {
    match input {
        PlatformInput::MouseDown { modifiers, .. } => Some(modifiers),
        PlatformInput::MouseUp { modifiers, .. } => Some(modifiers),
        PlatformInput::MouseMove { modifiers, .. } => Some(modifiers),
        PlatformInput::ScrollWheel { modifiers, .. } => Some(modifiers),
        PlatformInput::MouseExited { modifiers, .. } => Some(modifiers),
        PlatformInput::KeyDown { keystroke, .. } => Some(keystroke.modifiers),
        PlatformInput::KeyUp { keystroke } => Some(keystroke.modifiers),
        PlatformInput::ModifiersChanged { modifiers } => Some(modifiers),
        PlatformInput::Other => None,
    }
}

impl PluginWindowState {
    /// What is due after the host window is reported as `host`, in this order.
    pub open spec fn due_callbacks(self, host: HostWindow) -> Seq<WindowCallback> {
        let resized = !self.host.width.spec_equals(host.width) || !self.host.height.spec_equals(
            host.height,
        ) || !self.host.scale_factor.spec_equals(host.scale_factor);
        if self.host.spec_same(host) {
            Seq::empty()
        } else {
            (if resized && self.callbacks.resize {
                seq![
                    WindowCallback::Resize {
                        width: host.width,
                        height: host.height,
                        scale_factor: host.scale_factor,
                    },
                ]
            } else {
                Seq::empty()
            }) + (if self.host.active != host.active && self.callbacks.active {
                seq![WindowCallback::Active(host.active)]
            } else {
                Seq::empty()
            }) + (if self.host.appearance != host.appearance && self.callbacks.appearance {
                seq![WindowCallback::Appearance]
            } else {
                Seq::empty()
            })
        }
    }

    /// The state after an event was dispatched: what the framework reads back as the
    /// pointer's position, whether it is over the window, and the held modifiers.
    pub open spec fn after_input(self, input: PlatformInput) -> PluginWindowState {
        if self.closed {
            self
        } else {
            PluginWindowState {
                mouse_position: match pointer_position(input) {
                    Some(position) => position,
                    None => self.mouse_position,
                },
                hovered: if pointer_position(input) is Some {
                    !(input is MouseExited)
                } else {
                    self.hovered
                },
                modifiers: match carried_modifiers(input) {
                    Some(modifiers) => modifiers,
                    None => self.modifiers,
                },
                ..self
            }
        }
    }

    /// The state of a window that mirrors `host` and was just opened.
    pub open spec fn opened(host: HostWindow) -> PluginWindowState {
        PluginWindowState {
            host,
            mouse_position: WirePoint { x: zero(), y: zero() },
            modifiers: no_modifiers(),
            hovered: false,
            callbacks: no_callbacks(),
            input_handler: false,
            handle: None,
            closed: false,
        }
    }

    /// The window after the framework dropped it: without callbacks or a text field.
    pub open spec fn shut(self) -> PluginWindowState {
        PluginWindowState {
            closed: true,
            callbacks: no_callbacks(),
            input_handler: false,
            ..self
        }
    }

    /// A window that mirrors `host`.
    pub fn new(host: HostWindow) -> (window: PluginWindowState)
        ensures
            window == PluginWindowState::opened(host),
    {
        PluginWindowState {
            host,
            mouse_position: WirePoint { x: zero(), y: zero() },
            modifiers: no_modifiers(),
            hovered: false,
            callbacks: no_callbacks(),
            input_handler: false,
            handle: None,
            closed: false,
        }
    }

    /// Whether the framework dropped the window.
    pub fn is_closed(&self) -> (closed: bool)
        ensures
            closed == self.closed,
    {
        self.closed
    }

    /// Remember the framework's handle.
    pub fn set_handle(&mut self, handle: u64)
        ensures
            *final(self) == (PluginWindowState { handle: Some(handle), ..*old(self) }),
    {
        self.handle = Some(handle);
    }

    /// The framework's handle, once the window is open.
    pub fn handle(&self) -> (handle: Option<u64>)
        ensures
            handle == self.handle,
    {
        self.handle
    }

    /// The scale factor of the host window.
    pub fn scale_factor(&self) -> (scale_factor: Scalar)
        ensures
            scale_factor == self.host.scale_factor,
    {
        self.host.scale_factor
    }

    /// The host window this one mirrors.
    pub fn host_id(&self) -> (id: u64)
        ensures
            id == self.host.id,
    {
        self.host.id
    }

    /// How the window looks.
    pub fn appearance(&self) -> (appearance: WindowAppearance)
        ensures
            appearance == self.host.appearance.spec_to_gpui(),
    {
        self.host.appearance.to_gpui()
    }

    /// Follow the host window: a change of size or scale factor re-lays the window out,
    /// and active state and appearance are reported. What is due comes back, in order.
    pub fn sync_host(&mut self, host: HostWindow) -> (due: Vec<WindowCallback>)
        ensures
            due@ == old(self).due_callbacks(host),
            *final(self) == (if old(self).host.spec_same(host) {
                *old(self)
            } else {
                PluginWindowState { host, ..*old(self) }
            }),
    {
        let mut due: Vec<WindowCallback> = Vec::new();
        let current = self.host;
        if current.same(&host) {
            return due;
        }
        self.host = host;
        if (!current.width.equals(host.width) || !current.height.equals(host.height)
            || !current.scale_factor.equals(host.scale_factor)) && self.callbacks.resize {
            due.push(
                WindowCallback::Resize {
                    width: host.width,
                    height: host.height,
                    scale_factor: host.scale_factor,
                },
            );
        }
        if current.active != host.active && self.callbacks.active {
            due.push(WindowCallback::Active(host.active));
        }
        if current.appearance != host.appearance && self.callbacks.appearance {
            due.push(WindowCallback::Appearance);
        }
        assert(due@ =~= old(self).due_callbacks(host));
        due
    }

    /// Whether to ask the framework to redraw the window now.
    pub fn pump_frame(&self) -> (request: bool)
        ensures
            request == (!self.closed && self.callbacks.request_frame),
    {
        !self.closed && self.callbacks.request_frame
    }

    /// Note an input event, already in this window's coordinates. Tells whether to hand
    /// it to the framework: not to a closed window, nor where nobody listens.
    pub fn dispatch_input(&mut self, input: &PlatformInput) -> (hand_over: bool)
        ensures
            hand_over == (!old(self).closed && old(self).callbacks.input),
            *final(self) == old(self).after_input(*input),
    {
        if self.closed {
            return false;
        }
        match input {
            PlatformInput::MouseDown { x, y, modifiers, .. } => {
                self.pointed(*x, *y, *modifiers, true);
            },
            PlatformInput::MouseUp { x, y, modifiers, .. } => {
                self.pointed(*x, *y, *modifiers, true);
            },
            PlatformInput::MouseMove { x, y, modifiers, .. } => {
                self.pointed(*x, *y, *modifiers, true);
            },
            PlatformInput::ScrollWheel { x, y, modifiers, .. } => {
                self.pointed(*x, *y, *modifiers, true);
            },
            PlatformInput::MouseExited { x, y, modifiers, .. } => {
                self.pointed(*x, *y, *modifiers, false);
            },
            PlatformInput::KeyDown { keystroke, .. } => {
                self.modifiers = keystroke.modifiers;
            },
            PlatformInput::KeyUp { keystroke } => {
                self.modifiers = keystroke.modifiers;
            },
            PlatformInput::ModifiersChanged { modifiers } => {
                self.modifiers = *modifiers;
            },
            PlatformInput::Other => {},
        }
        self.callbacks.input
    }

    fn pointed(&mut self, x: Scalar, y: Scalar, modifiers: PlatformModifiers, hovered: bool)
        ensures
            *final(self) == (PluginWindowState {
                mouse_position: WirePoint { x, y },
                modifiers,
                hovered,
                ..*old(self)
            }),
    {
        self.mouse_position = WirePoint { x, y };
        self.modifiers = modifiers;
        self.hovered = hovered;
    }

    /// Whether a question can be put to the focused text field: the window is open, and
    /// there is a field.
    pub fn with_input_handler(&self) -> (available: bool)
        ensures
            available == (!self.closed && self.input_handler),
    {
        !self.closed && self.input_handler
    }

    /// The framework dropped the window: its callbacks and its text field are gone.
    pub fn close(&mut self)
        ensures
            *final(self) == old(self).shut(),
    {
        self.closed = true;
        self.callbacks = no_callbacks();
        self.input_handler = false;
    }
}

impl View for PluginWindowState {
    type V = PluginWindowState;

    open spec fn view(&self) -> PluginWindowState {
        *self
    }
}

/// A closed window stays silent whatever is dispatched to it.
pub proof fn closed_windows_stay_silent(window: PluginWindowState, input: PlatformInput)
    requires
        window.closed,
    ensures
        window.after_input(input) == window,
{
}

/// Reporting the same host window again, coordinates being numbers, makes nothing due.
pub proof fn syncing_twice_is_syncing_once(window: PluginWindowState, host: HostWindow)
    requires
        !host.width.is_nan(),
        !host.height.is_nan(),
        !host.scale_factor.is_nan(),
    ensures
        (PluginWindowState { host, ..window }).due_callbacks(host).len() == 0,
{
}

/// A window follows the pointer: after a mouse event it is where the event was, over the window
/// unless it left, with the modifiers the event carried. A key event changes nothing but the
/// modifiers, to those it carried, and any other event nothing.
pub proof fn windows_follow_the_pointer(window: PluginWindowState, input: PlatformInput)
    requires
        !window.closed,
    ensures
        ({
            let after = window.after_input(input);
            &&& after == (PluginWindowState {
                mouse_position: after.mouse_position,
                modifiers: after.modifiers,
                hovered: after.hovered,
                ..window
            })
            &&& match input {
                PlatformInput::MouseDown { x, y, modifiers, .. } => after.mouse_position.x == x
                    && after.mouse_position.y == y && after.modifiers == modifiers && after.hovered,
                PlatformInput::MouseUp { x, y, modifiers, .. } => after.mouse_position.x == x
                    && after.mouse_position.y == y && after.modifiers == modifiers && after.hovered,
                PlatformInput::MouseMove { x, y, modifiers, .. } => after.mouse_position.x == x
                    && after.mouse_position.y == y && after.modifiers == modifiers && after.hovered,
                PlatformInput::ScrollWheel { x, y, modifiers, .. } => after.mouse_position.x == x
                    && after.mouse_position.y == y && after.modifiers == modifiers && after.hovered,
                PlatformInput::MouseExited { x, y, modifiers, .. } => after.mouse_position.x == x
                    && after.mouse_position.y == y && after.modifiers == modifiers
                    && !after.hovered,
                PlatformInput::KeyDown { keystroke, .. } => after == (PluginWindowState {
                    modifiers: keystroke.modifiers,
                    ..window
                }),
                PlatformInput::KeyUp { keystroke } => after == (PluginWindowState {
                    modifiers: keystroke.modifiers,
                    ..window
                }),
                PlatformInput::ModifiersChanged { modifiers } => after == (PluginWindowState {
                    modifiers,
                    ..window
                }),
                PlatformInput::Other => after == window,
            }
        }),
{
}

/// The framework is told what changed about the host window, and nothing else: of a new size or
/// scale factor with the new ones, of becoming active or not with which, and of a new
/// appearance; each only where it listens for it.
pub proof fn windows_report_what_changed(window: PluginWindowState, host: HostWindow)
    ensures
        ({
            let due = window.due_callbacks(host);
            let resized = !window.host.width.spec_equals(host.width)
                || !window.host.height.spec_equals(host.height)
                || !window.host.scale_factor.spec_equals(host.scale_factor);
            &&& due.contains(
                WindowCallback::Resize {
                    width: host.width,
                    height: host.height,
                    scale_factor: host.scale_factor,
                },
            ) <==> resized && window.callbacks.resize
            &&& due.contains(WindowCallback::Active(host.active)) <==> window.host.active
                != host.active && window.callbacks.active
            &&& due.contains(WindowCallback::Appearance) <==> window.host.appearance
                != host.appearance && window.callbacks.appearance
            &&& forall|i: int|
                0 <= i < due.len() ==> match (#[trigger] due[i]) {
                    WindowCallback::Resize { width, height, scale_factor } => width == host.width
                        && height == host.height && scale_factor == host.scale_factor,
                    WindowCallback::Active(active) => active == host.active,
                    WindowCallback::Appearance => true,
                }
            &&& due.no_duplicates()
        }),
{
    let due = window.due_callbacks(host);
    let resized = !window.host.width.spec_equals(host.width)
        || !window.host.height.spec_equals(host.height) || !window.host.scale_factor.spec_equals(
        host.scale_factor,
    );
    let size = WindowCallback::Resize {
        width: host.width,
        height: host.height,
        scale_factor: host.scale_factor,
    };
    let activity = WindowCallback::Active(host.active);
    let look = WindowCallback::Appearance;
    let first: int = if resized && window.callbacks.resize {
        1
    } else {
        0
    };
    let second: int = first + if window.host.active != host.active && window.callbacks.active {
        1int
    } else {
        0
    };
    if resized && window.callbacks.resize {
        assert(due[0] == size);
    }
    if window.host.active != host.active && window.callbacks.active {
        assert(due[first] == activity);
    }
    if window.host.appearance != host.appearance && window.callbacks.appearance {
        assert(due[second] == look);
    }
}

/// A window opens as the mirror of its host window, with nobody listening and nothing held or
/// pointed at; once dropped it keeps that host window, and nobody listens any more.
pub proof fn windows_open_and_shut(host: HostWindow, window: PluginWindowState)
    ensures
        PluginWindowState::opened(host).host == host,
        !PluginWindowState::opened(host).closed,
        !PluginWindowState::opened(host).hovered,
        !PluginWindowState::opened(host).input_handler,
        PluginWindowState::opened(host).handle is None,
        ({
            let heard = PluginWindowState::opened(host).callbacks;
            !heard.request_frame && !heard.input && !heard.resize && !heard.active
                && !heard.appearance
        }),
        ({
            let held = PluginWindowState::opened(host).modifiers;
            !held.control && !held.alt && !held.shift && !held.platform && !held.function
        }),
        window.shut().closed,
        window.shut().host == window.host,
        window.shut().handle == window.handle,
        !window.shut().input_handler,
        ({
            let heard = window.shut().callbacks;
            !heard.request_frame && !heard.input && !heard.resize && !heard.active
                && !heard.appearance
        }),
{
}

} // verus!
