//! The host's end of a surface: it caches the guest's most recent display list and replays
//! it every frame without calling into the guest, and drives the attached view with
//! geometry and input.

use vstd::prelude::*;
use crate::clipboard::{duplicate_text, optional_text};
use crate::display_list::{DisplayList, HitRegion};
use crate::images::RenderImage;
use crate::input_query::{InputQuery, KeyDownQuery};
use crate::platform_types::{
    CursorStyle, PlatformInput, PlatformKeystroke, PlatformModifiers, Scalar,
};
use crate::registry::Remote;
use crate::replay::{is_replay, replay, PaintLayer};
use crate::surface::{
    slots_are_the_same_in_everything, Cursor, Geometry, KeyEvent, MouseEvent,
};
use crate::table::Table;

verus! {

/// Overlays are painted above everything the host defers itself.
pub const OVERLAY_PRIORITY: usize = 1_048_576;

/// What a surface holds.
#[verifier::ext_equal]
pub struct SurfaceModel {
    /// The view drawing here.
    pub view: Option<u64>,
    pub display_list: Option<DisplayList>,
    /// What the view drew outside its slot, painted above the whole host window.
    pub overlay: Option<DisplayList>,
    pub cursor: Option<CursorStyle>,
    /// Where the slot was last measured.
    pub geometry: Option<Geometry>,
    /// Whether the plugin behind the view can be asked synchronously.
    pub queries: bool,
    /// Why the plugin behind the view stopped, shown in place of the scene.
    pub stopped: Option<Seq<char>>,
    /// A mouse-down is about to focus the surface, so the focus that follows is no
    /// keyboard traversal.
    pub focus_by_pointer: bool,
}

/// A place pixels go: one slot in the host's element tree.
pub struct Surface {
    view: Option<Remote>,
    display_list: Option<DisplayList>,
    overlay: Option<DisplayList>,
    cursor: Option<CursorStyle>,
    geometry: Option<Geometry>,
    queries: bool,
    stopped: Option<String>,
    focus_by_pointer: bool,
}

impl Surface {
    /// What the surface holds.
    pub closed spec fn state(&self) -> SurfaceModel {
        SurfaceModel {
            view: match self.view {
                Some(view) => Some(view.spec_id()),
                None => None,
            },
            display_list: self.display_list,
            overlay: self.overlay,
            cursor: self.cursor,
            geometry: self.geometry,
            queries: self.queries,
            stopped: optional_text(self.stopped),
            focus_by_pointer: self.focus_by_pointer,
        }
    }
}

/// What attaching a view leaves to be done.
#[derive(Debug)]
pub struct Attached {
    /// The handle on the view that drew here before, to be given back.
    pub previous: Option<Remote>,
    /// The geometry to send the new view at once, before any input can reach it.
    pub resize: Option<Geometry>,
}

/// What a key-down leads to.
#[derive(Debug, PartialEq)]
pub struct KeyDownPlan {
    /// Look at the clipboard first: a change reaches the guest ahead of the key.
    pub refresh_clipboard: bool,
    /// Ask the view whether it consumes the key.
    pub query: Option<InputQuery>,
}

/// What a surface shows.
#[derive(Debug, PartialEq)]
pub struct SurfaceFrame {
    pub cursor: Option<CursorStyle>,
    /// The scene, layer by layer.
    pub scene: Option<Vec<PaintLayer>>,
    /// The overlay, layer by layer.
    pub overlay: Option<Vec<PaintLayer>>,
    /// Where the pointer reaches the overlay.
    pub regions: Option<Vec<HitRegion>>,
    /// The reason shown in place of the scene.
    pub stopped: Option<String>,
}

/// Whether `painted` is the replay of a list, where there is one.
pub open spec fn shows(
    painted: Option<Vec<PaintLayer>>,
    list: Option<DisplayList>,
    images: Set<u64>,
) -> bool {
    match (painted, list) {
        (Some(painted), Some(list)) => is_replay(list.primitives@, images, painted@),
        (None, None) => true,
        _ => false,
    }
}

/// Whether a key with these modifiers may paste.
pub open spec fn may_paste(modifiers: PlatformModifiers) -> bool {
    modifiers.platform || modifiers.control || modifiers.alt
}

impl Surface {
    /// A surface nobody draws on.
    pub fn new() -> (surface: Surface)
        ensures
            surface.state() == (SurfaceModel {
                view: None,
                display_list: None,
                overlay: None,
                cursor: None,
                geometry: None,
                queries: false,
                stopped: None,
                focus_by_pointer: false,
            }),
    {
        Surface {
            view: None,
            display_list: None,
            overlay: None,
            cursor: None,
            geometry: None,
            queries: false,
            stopped: None,
            focus_by_pointer: false,
        }
    }

    /// The view currently drawing here, if a guest has attached one.
    pub fn view(&self) -> (view: Option<&Remote>)
        ensures
            match view {
                Some(view) => self.state().view == Some(view.spec_id()),
                None => self.state().view is None,
            },
    {
        self.view.as_ref()
    }

    /// Whether a display list has arrived since the last attach.
    pub fn has_scene(&self) -> (has_scene: bool)
        ensures
            has_scene == self.state().display_list is Some,
    {
        self.display_list.is_some()
    }

    /// Bind the view that will draw here, in place of one before it. The geometry the slot
    /// was last measured at goes out at once, so the view renders at the slot's real size
    /// from its first frame.
    pub fn attach(&mut self, view: Remote, queries: bool) -> (attached: Attached)
        ensures
            attached.resize == old(self).state().geometry,
            match attached.previous {
                Some(previous) => old(self).state().view == Some(previous.spec_id()),
                None => old(self).state().view is None,
            },
            final(self).state() == (SurfaceModel {
                view: Some(view.spec_id()),
                display_list: None,
                queries,
                ..old(self).state()
            }),
    {
        let mut previous: Option<Remote> = Some(view);
        core::mem::swap(&mut previous, &mut self.view);
        self.queries = queries;
        self.display_list = None;
        Attached { previous, resize: self.geometry }
    }

    /// The cursor to show while the pointer is over this surface.
    pub fn set_cursor(&mut self, cursor: Cursor)
        ensures
            final(self).state() == (SurfaceModel {
                cursor: Some(cursor.spec_to_gpui()),
                ..old(self).state()
            }),
    {
        self.cursor = Some(cursor.to_gpui());
    }

    /// The plugin behind the view stopped: the reason is shown, and the overlay goes.
    pub fn set_stopped(&mut self, reason: String)
        ensures
            final(self).state() == (SurfaceModel {
                stopped: Some(reason@),
                overlay: None,
                ..old(self).state()
            }),
    {
        self.stopped = Some(reason);
        self.overlay = None;
    }

    /// A scene arrived.
    pub fn set_scene(&mut self, list: DisplayList)
        ensures
            final(self).state() == (SurfaceModel { display_list: Some(list), ..old(self).state() }),
    {
        self.display_list = Some(list);
    }

    /// An overlay arrived; one without primitives takes the overlay away.
    pub fn set_overlay(&mut self, list: DisplayList)
        ensures
            final(self).state() == (SurfaceModel {
                overlay: if list.primitives@.len() == 0 {
                    None
                } else {
                    Some(list)
                },
                ..old(self).state()
            }),
    {
        self.overlay = if list.primitives.len() == 0 {
            None
        } else {
            Some(list)
        };
    }

    /// The slot was measured. Gives the geometry to send the view: if there is one, and
    /// any of it changed.
    pub fn measured(&mut self, geometry: Geometry) -> (resize: Option<Geometry>)
        ensures
            ({
                let changed = !(old(self).state().geometry matches Some(known) && known.spec_same(
                    geometry,
                ));
                &&& final(self).state() == (if changed {
                    SurfaceModel { geometry: Some(geometry), ..old(self).state() }
                } else {
                    old(self).state()
                })
                &&& resize == (if changed && old(self).state().view is Some {
                    Some(geometry)
                } else {
                    None
                })
            }),
            old(self).state().view is Some && resize is None ==> (
            old(self).state().geometry matches Some(known) && known.x.spec_equals(geometry.x)
                && known.y.spec_equals(geometry.y) && known.width.spec_equals(geometry.width)
                && known.height.spec_equals(geometry.height) && known.window.id
                == geometry.window.id && known.window.width.spec_equals(geometry.window.width)
                && known.window.height.spec_equals(geometry.window.height)
                && known.window.scale_factor.spec_equals(geometry.window.scale_factor)
                && known.window.active == geometry.window.active && known.window.appearance
                == geometry.window.appearance),
            resize is None || resize == Some(geometry),
    {
        proof {
            if let Some(known) = self.geometry {
                slots_are_the_same_in_everything(known, geometry);
            }
        }
        if let Some(known) = self.geometry {
            if known.same(&geometry) {
                return None;
            }
        }
        self.geometry = Some(geometry);
        if self.view.is_some() {
            Some(geometry)
        } else {
            None
        }
    }

    /// The event to forward to the view for a mouse event of the window system, at
    /// slot-relative coordinates.
    pub fn forward_mouse(&self, input: &PlatformInput) -> (event: Option<MouseEvent>)
        ensures
            event == (if self.state().view is Some {
                MouseEvent::spec_from_gpui(*input)
            } else {
                None
            }),
    {
        if self.view.is_some() {
            MouseEvent::from_gpui(input)
        } else {
            None
        }
    }

    /// The pointer entered the surface or left it, at these coordinates. A view is told only
    /// that it left: it clears hover and dismisses tooltips then.
    pub fn hover_changed(
        &self,
        hovered: bool,
        x: Scalar,
        y: Scalar,
        modifiers: PlatformModifiers,
    ) -> (event: Option<MouseEvent>)
        ensures
            event == (if self.state().view is Some && !hovered {
                MouseEvent::spec_from_gpui(
                    PlatformInput::MouseExited { x, y, pressed_button: None, modifiers },
                )
            } else {
                None
            }),
    {
        if hovered {
            None
        } else {
            self.forward_mouse(
                &PlatformInput::MouseExited { x, y, pressed_button: None, modifiers },
            )
        }
    }

    /// The event to forward to the view for a key event of the window system.
    pub fn forward_key(&self, input: &PlatformInput) -> (event: Option<KeyEvent>)
        ensures
            event == (if self.state().view is Some {
                KeyEvent::spec_from_gpui(*input)
            } else {
                None
            }),
    {
        if self.view.is_some() {
            KeyEvent::from_gpui(input)
        } else {
            None
        }
    }

    /// Whom to ask what the host cannot wait a turn for: the view, if there is one and its
    /// plugin can be asked.
    pub fn query(&self) -> (view: Option<u64>)
        ensures
            view == (if self.state().queries {
                self.state().view
            } else {
                None
            }),
    {
        if self.queries {
            match &self.view {
                Some(view) => Some(view.id()),
                None => None,
            }
        } else {
            None
        }
    }

    /// A key went down while the surface had focus: whether the guest consumes it decides
    /// whether the host turns it into text, so the guest is asked.
    pub fn key_down(&self, keystroke: PlatformKeystroke, is_held: bool) -> (plan: KeyDownPlan)
        ensures
            plan.refresh_clipboard == (may_paste(keystroke.modifiers) && self.state().queries),
            plan.query == (if self.state().queries && self.state().view is Some {
                Some(InputQuery::KeyDown(KeyDownQuery { keystroke, is_held }))
            } else {
                None
            }),
    {
        let modifiers = keystroke.modifiers;
        KeyDownPlan {
            refresh_clipboard: (modifiers.platform || modifiers.control || modifiers.alt)
                && self.queries,
            query: if self.queries && self.view.is_some() {
                Some(InputQuery::KeyDown(KeyDownQuery { keystroke, is_held }))
            } else {
                None
            },
        }
    }

    /// The pointer was pressed over the surface. Tells whether to focus it.
    pub fn pointer_down(&mut self, is_focused: bool) -> (focus: bool)
        ensures
            focus == !is_focused,
            final(self).state() == (if is_focused {
                old(self).state()
            } else {
                SurfaceModel { focus_by_pointer: true, ..old(self).state() }
            }),
    {
        if !is_focused {
            self.focus_by_pointer = true;
        }
        !is_focused
    }

    /// Keyboard focus reached the surface. If that was by traversal and there is a view,
    /// the view is told to focus its first stop, or its last if the traversal was backward
    /// (shift held).
    pub fn focus_gained(&mut self, shift: bool) -> (entered_backward: Option<bool>)
        ensures
            final(self).state() == (SurfaceModel { focus_by_pointer: false, ..old(self).state() }),
            entered_backward == (if !old(self).state().focus_by_pointer && old(self).state().view is Some {
                Some(shift)
            } else {
                None
            }),
    {
        if self.focus_by_pointer {
            self.focus_by_pointer = false;
            return None;
        }
        if self.view.is_some() {
            Some(shift)
        } else {
            None
        }
    }

    /// What the surface shows now.
    pub fn render(&self, images: &Table<RenderImage>) -> (frame: SurfaceFrame)
        ensures
            frame.cursor == self.state().cursor,
            shows(frame.scene, self.state().display_list, images@.dom()),
            shows(frame.overlay, self.state().overlay, images@.dom()),
            match (frame.regions, self.state().overlay) {
                (Some(regions), Some(list)) => regions@ == list.hit_regions@,
                (None, None) => true,
                _ => false,
            },
            optional_text(frame.stopped) == self.state().stopped,
    {
        let scene = replay_if_any(&self.display_list, images);
        let overlay = replay_if_any(&self.overlay, images);
        let regions = match &self.overlay {
            Some(list) => {
                let regions = copy_regions(&list.hit_regions);
                Some(regions)
            },
            None => None,
        };
        SurfaceFrame {
            cursor: self.cursor,
            scene,
            overlay,
            regions,
            stopped: duplicate_text(&self.stopped),
        }
    }
}

fn replay_if_any(list: &Option<DisplayList>, images: &Table<RenderImage>) -> (painted: Option<
    Vec<PaintLayer>,
>)
    ensures
        shows(painted, *list, images@.dom()),
{
    match list {
        Some(list) => Some(replay(list, images)),
        None => None,
    }
}

fn copy_regions(regions: &Vec<HitRegion>) -> (copy: Vec<HitRegion>)
    ensures
        copy@ == regions@,
{
    let mut copy: Vec<HitRegion> = Vec::new();
    let mut i: usize = 0;
    while i < regions.len()
        invariant
            i <= regions.len(),
            copy@ == regions@.take(i as int),
        decreases regions.len() - i,
    {
        copy.push(regions[i]);
        i += 1;
        assert(copy@ =~= regions@.take(i as int));
    }
    assert(regions@.take(i as int) =~= regions@);
    copy
}

/// The clipboard is looked at before a key just where a modifier that commands are given with
/// is held: the platform's, control or alt. Shift and the function key alone paste nothing.
pub proof fn commands_may_paste(modifiers: PlatformModifiers)
    ensures
        modifiers.platform ==> may_paste(modifiers),
        modifiers.control ==> may_paste(modifiers),
        modifiers.alt ==> may_paste(modifiers),
        !modifiers.platform && !modifiers.control && !modifiers.alt ==> !may_paste(modifiers),
{
}

/// A surface shows the replay of its list, and nothing where it has none.
pub proof fn surfaces_show_their_list(
    painted: Option<Vec<PaintLayer>>,
    list: Option<DisplayList>,
    images: Set<u64>,
)
    requires
        shows(painted, list, images),
    ensures
        painted is Some <==> list is Some,
        painted matches Some(layers) ==> is_replay(list->0.primitives@, images, layers@),
{
}

} // verus!
