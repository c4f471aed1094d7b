//! The platform a plugin's UI runs on. There is no real display: each window mirrors one
//! host window, and every host surface in that window is a root of it at the slot's real
//! origin. This is the table of views, windows and queued events; what only the UI
//! framework can do (open a window, attach a root) is asked for and reported back.

use vstd::prelude::*;
use crate::display_list::WirePoint;
use crate::guest_window::{PluginWindowState, WindowCallback};
use crate::input_query::{
    spec_window_request, window_request, FieldQuestion, InputAnswer, InputQuery, WindowRequest,
};
use crate::platform_types::{CursorStyle, PlatformInput};
use crate::surface::{Cursor, Geometry, HostWindow};
use crate::table::Table;

verus! {

/// Where the host put a surface: the guest window mirroring the surface's host window, the
/// root the view is attached as, and the slot's origin.
#[derive(Clone, Copy, Debug, PartialEq, Eq, Structural)]
pub struct Placement {
    pub window: u64,
    pub root: u64,
    pub origin: WirePoint,
}

/// A view a plugin opened on a host surface.
#[derive(Clone, Copy, Debug, PartialEq, Eq, Structural)]
pub struct SurfaceView {
    pub view: u64,
    /// Distinguishes registrations: a surface reopened while its previous view's release
    /// is still pending must not lose the new view to that release.
    pub generation: u64,
    /// Where the host put the surface, once it has said. Until then the view is not drawn,
    /// so its first frame is at the slot's real size.
    pub placed: Option<Placement>,
}

impl View for SurfaceView {
    type V = SurfaceView;

    open spec fn view(&self) -> SurfaceView {
        *self
    }
}

/// One host-driven event for a surface's view, applied by the pump.
#[derive(Debug, PartialEq)]
pub enum SurfaceEvent {
    Resize { surface: u64, geometry: Geometry },
    Input { surface: u64, input: PlatformInput },
}

/// A root to detach, and whether its window closes with it.
#[derive(Clone, Copy, Debug, PartialEq, Eq, Structural)]
pub struct Unplaced {
    /// The framework's handle on the window the root is in.
    pub handle: Option<u64>,
    pub root: u64,
    pub close_window: bool,
}

/// What a query needs next.
#[derive(Debug, PartialEq)]
pub enum QueryStep {
    /// It is answered.
    Answer(InputAnswer),
    /// Dispatch the key through the window, and answer with what comes of it.
    Dispatch { window: u64, input: PlatformInput },
    /// Ask the window's focused text field, and answer with its reply. The slot is at
    /// `origin` in the window.
    Ask { window: u64, origin: WirePoint, question: FieldQuestion },
}

/// What placing a surface needs next.
#[derive(Debug, PartialEq)]
pub enum PlaceStep {
    /// Nothing: the slot is empty, or nobody draws there.
    Skip,
    /// Open a window that mirrors the host window, then try again.
    OpenWindow,
    /// The window is there. Make the callbacks, then give the root its new bounds.
    Move { due: Vec<WindowCallback>, handle: Option<u64>, root: u64 },
    /// The window is there. Make the callbacks, detach the old root if there is one, then
    /// attach the view as a root; without a handle on the window that cannot be done.
    Attach {
        due: Vec<WindowCallback>,
        handle: Option<u64>,
        unplaced: Option<Unplaced>,
        view: u64,
    },
}

/// What a [`PlaceStep`] holds.
#[verifier::ext_equal]
pub enum PlaceStepModel {
    Skip,
    OpenWindow,
    Move { due: Seq<WindowCallback>, handle: Option<u64>, root: u64 },
    Attach {
        due: Seq<WindowCallback>,
        handle: Option<u64>,
        unplaced: Option<Unplaced>,
        view: u64,
    },
}

impl View for PlaceStep {
    type V = PlaceStepModel;

    open spec fn view(&self) -> PlaceStepModel {
        match *self {
            PlaceStep::Skip => PlaceStepModel::Skip,
            PlaceStep::OpenWindow => PlaceStepModel::OpenWindow,
            PlaceStep::Move { due, handle, root } => PlaceStepModel::Move {
                due: due@,
                handle,
                root,
            },
            PlaceStep::Attach { due, handle, unplaced, view } => PlaceStepModel::Attach {
                due: due@,
                handle,
                unplaced,
                view,
            },
        }
    }
}

/// Where a forwarded event goes: the window, and the slot's origin in it.
#[derive(Clone, Copy, Debug, PartialEq, Eq, Structural)]
pub struct InputTarget {
    pub window: u64,
    pub origin: WirePoint,
}

/// One root whose scene may have to be shipped to its surface.
#[derive(Clone, Copy, Debug, PartialEq, Eq, Structural)]
pub struct ShipItem {
    pub window: u64,
    pub surface: u64,
    pub root: u64,
    pub origin: WirePoint,
    /// Whether what belongs to no root goes with this one: it appears where the pointer
    /// is.
    pub include_unowned: bool,
}

/// The state of the platform.
#[verifier::ext_equal]
pub struct PlatformModel {
    /// Guest windows, by the host window each mirrors.
    pub windows: Map<u64, PluginWindowState>,
    /// The host window the next window to open mirrors.
    pub pending_window: Option<HostWindow>,
    /// Views with a surface, by surface object id.
    pub views: Map<u64, SurfaceView>,
    /// The surface each shared view object draws on.
    pub view_objects: Map<u64, u64>,
    pub next_generation: u64,
    /// Geometry and input the host delivered this turn.
    pub pending_events: Seq<SurfaceEvent>,
    /// The surface that most recently received input.
    pub last_input_surface: Option<u64>,
    /// A cursor set since the last pump.
    pub pending_cursor: Option<Cursor>,
}

impl PlatformModel {
    /// A platform without windows or views.
    pub open spec fn initial() -> PlatformModel {
        PlatformModel {
            windows: Map::empty(),
            pending_window: None,
            views: Map::empty(),
            view_objects: Map::empty(),
            next_generation: 0,
            pending_events: Seq::empty(),
            last_input_surface: None,
            pending_cursor: None,
        }
    }

    /// Whether host window `id` is mirrored by an open window.
    pub open spec fn is_open(self, id: u64) -> bool {
        self.windows.contains_key(id) && !self.windows[id].closed
    }

    /// The state without window `id` if it was closed.
    pub open spec fn swept(self, id: u64) -> PlatformModel {
        if self.is_open(id) {
            self
        } else {
            PlatformModel { windows: self.windows.remove(id), ..self }
        }
    }

    /// Where a surface is drawn, if it is.
    pub open spec fn placement(self, surface: u64) -> Option<Placement> {
        if self.views.contains_key(surface) {
            self.views[surface].placed
        } else {
            None
        }
    }

    /// Whether some surface other than `surface` is drawn in window `id`.
    pub open spec fn used_by_others(self, id: u64, surface: u64) -> bool {
        exists|other: u64|
            #![trigger self.views.contains_key(other)]
            other != surface && self.views.contains_key(other) && (
            self.views[other].placed matches Some(placed) && placed.window == id)
    }

    /// The root to detach when a surface leaves where it was placed: none if it was not
    /// placed or the window is gone. The window closes with the last root in it.
    pub open spec fn unplacing(self, surface: u64, placed: Option<Placement>) -> Option<Unplaced> {
        match placed {
            Some(placed) if self.is_open(placed.window) => Some(
                Unplaced {
                    handle: self.windows[placed.window].handle,
                    root: placed.root,
                    close_window: !self.used_by_others(placed.window, surface),
                },
            ),
            _ => None,
        }
    }

    /// The state after a surface left where it was placed.
    pub open spec fn unplaced(self, surface: u64, placed: Option<Placement>) -> PlatformModel {
        match placed {
            Some(placed) => if self.used_by_others(placed.window, surface) {
                self.swept(placed.window)
            } else {
                PlatformModel { windows: self.windows.remove(placed.window), ..self }
            },
            None => self,
        }
    }

    /// The state after a view was opened on `surface`, in place of one it had.
    pub open spec fn view_added(self, surface: u64, view: u64) -> PlatformModel {
        PlatformModel {
            views: self.views.insert(
                surface,
                SurfaceView { view, generation: self.next_generation, placed: None },
            ),
            next_generation: (self.next_generation + 1) as u64,
            ..self.unplaced(surface, self.placement(surface))
        }
    }

    /// Whether `generation` is the registration drawing on `surface`.
    pub open spec fn is_current(self, surface: u64, generation: u64) -> bool {
        self.views.contains_key(surface) && self.views[surface].generation == generation
    }

    /// The state after a registration was given up; one that was replaced has nothing to
    /// give up.
    pub open spec fn view_removed(self, surface: u64, generation: u64) -> PlatformModel {
        if self.is_current(surface, generation) {
            PlatformModel {
                views: self.views.remove(surface),
                ..self.unplaced(surface, self.placement(surface))
            }
        } else {
            self
        }
    }

    /// Whether every registration was given out.
    pub open spec fn generations_wf(self) -> bool {
        forall|surface: u64| #[trigger]
            self.views.contains_key(surface) ==> self.views[surface].generation
                < self.next_generation
    }

    /// The surface behind a view object, and where it is placed.
    pub open spec fn query_target(self, view: u64) -> Option<(u64, Placement)> {
        if self.view_objects.contains_key(view) {
            match self.placement(self.view_objects[view]) {
                Some(placed) => Some((self.view_objects[view], placed)),
                None => None,
            }
        } else {
            None
        }
    }

    /// What a query needs next.
    pub open spec fn query_step(self, view: u64, query: InputQuery) -> QueryStep {
        match self.query_target(view) {
            Some((_, placed)) if self.is_open(placed.window) => {
                let window = self.windows[placed.window];
                match spec_window_request(query) {
                    WindowRequest::Dispatch(input) if window.callbacks.input =>
                        QueryStep::Dispatch { window: placed.window, input },
                    WindowRequest::Ask(question) if window.input_handler => QueryStep::Ask {
                        window: placed.window,
                        origin: placed.origin,
                        question,
                    },
                    _ => QueryStep::Answer(InputAnswer::Nothing),
                }
            },
            _ => QueryStep::Answer(InputAnswer::Nothing),
        }
    }

    /// The state after a query arrived: a key counts as input on its surface.
    pub open spec fn after_query(self, view: u64, query: InputQuery) -> PlatformModel {
        match self.query_target(view) {
            Some((surface, placed)) => if self.is_open(placed.window) {
                match spec_window_request(query) {
                    WindowRequest::Dispatch(input) => PlatformModel {
                        windows: self.windows.insert(
                            placed.window,
                            self.windows[placed.window].after_input(input),
                        ),
                        last_input_surface: Some(surface),
                        ..self
                    },
                    _ => self,
                }
            } else {
                self.swept(placed.window)
            },
            None => self,
        }
    }
}

impl PlatformModel {
    /// Whether there is something to place: the slot is not empty, and somebody draws
    /// there.
    pub open spec fn placeable(self, surface: u64, geometry: Geometry) -> bool {
        &&& !geometry.width.spec_at_most_zero()
        &&& !geometry.height.spec_at_most_zero()
        &&& self.views.contains_key(surface)
    }

    /// The state with the mirror of `host` told of it.
    pub open spec fn synced(self, host: HostWindow) -> PlatformModel {
        let window = self.windows[host.id];
        if window.host.spec_same(host) {
            self
        } else {
            PlatformModel {
                windows: self.windows.insert(host.id, PluginWindowState { host, ..window }),
                ..self
            }
        }
    }

    /// What placing a surface needs next.
    pub open spec fn place_step(self, surface: u64, geometry: Geometry) -> PlaceStepModel {
        let id = geometry.window.id;
        if !self.placeable(surface, geometry) {
            PlaceStepModel::Skip
        } else if !self.is_open(id) {
            PlaceStepModel::OpenWindow
        } else {
            let due = self.windows[id].due_callbacks(geometry.window);
            let handle = self.windows[id].handle;
            match self.views[surface].placed {
                Some(placed) if placed.window == id => PlaceStepModel::Move {
                    due,
                    handle,
                    root: placed.root,
                },
                placed => PlaceStepModel::Attach {
                    due,
                    handle,
                    unplaced: self.unplacing(surface, placed),
                    view: self.views[surface].view,
                },
            }
        }
    }

    /// The state after that step.
    pub open spec fn after_place(self, surface: u64, geometry: Geometry) -> PlatformModel {
        let id = geometry.window.id;
        if !self.placeable(surface, geometry) {
            self
        } else if !self.is_open(id) {
            PlatformModel { pending_window: Some(geometry.window), ..self.swept(id) }
        } else {
            match self.views[surface].placed {
                Some(placed) if placed.window == id => self.synced(geometry.window),
                placed => self.synced(geometry.window).unplaced(surface, placed),
            }
        }
    }

    /// Whether `items` lists, once each, the surfaces drawn in a window that is open and
    /// has a handle.
    pub open spec fn ships(self, items: Seq<ShipItem>) -> bool {
        &&& forall|i: int, j: int|
            0 <= i < j < items.len() ==> (#[trigger] items[i]).surface != (
            #[trigger] items[j]).surface
        &&& forall|i: int|
            0 <= i < items.len() ==> self.ship_item((#[trigger] items[i]).surface) == Some(
                items[i],
            )
        &&& forall|surface: u64| #[trigger]
            self.ship_item(surface) is Some ==> exists|i: int|
                0 <= i < items.len() && (#[trigger] items[i]).surface == surface
    }

    /// What to ship for a surface, if anything.
    pub open spec fn ship_item(self, surface: u64) -> Option<ShipItem> {
        match self.placement(surface) {
            Some(placed) if self.is_open(placed.window)
                && self.windows[placed.window].handle is Some => Some(
                ShipItem {
                    window: placed.window,
                    surface,
                    root: placed.root,
                    origin: placed.origin,
                    include_unowned: self.last_input_surface == Some(surface),
                },
            ),
            _ => None,
        }
    }
}

/// The platform's tables.
pub struct PluginPlatform {
    windows: Table<PluginWindowState>,
    pending_window: Option<HostWindow>,
    views: Table<SurfaceView>,
    view_objects: Table<u64>,
    next_generation: u64,
    pending_events: Vec<SurfaceEvent>,
    last_input_surface: Option<u64>,
    pending_cursor: Option<Cursor>,
}

impl View for PluginPlatform {
    type V = PlatformModel;

    closed spec fn view(&self) -> PlatformModel {
        PlatformModel {
            windows: self.windows@,
            pending_window: self.pending_window,
            views: self.views@,
            view_objects: self.view_objects@,
            next_generation: self.next_generation,
            pending_events: self.pending_events@,
            last_input_surface: self.last_input_surface,
            pending_cursor: self.pending_cursor,
        }
    }
}

impl PluginPlatform {
    /// A platform without windows or views.
    pub fn new() -> (platform: PluginPlatform)
        ensures
            platform@ == PlatformModel::initial(),
    {
        PluginPlatform {
            windows: Table::new(),
            pending_window: None,
            views: Table::new(),
            view_objects: Table::new(),
            next_generation: 0,
            pending_events: Vec::new(),
            last_input_surface: None,
            pending_cursor: None,
        }
    }

    /// The open guest window mirroring host window `id`; a closed one is forgotten.
    fn window(&mut self, id: u64) -> (window: Option<PluginWindowState>)
        ensures
            final(self)@ == old(self)@.swept(id),
            window == (if old(self)@.is_open(id) {
                Some(old(self)@.windows[id])
            } else {
                None
            }),
    {
        let found = match self.windows.get(id) {
            Some(window) => Some(*window),
            None => None,
        };
        match found {
            Some(window) => {
                if window.is_closed() {
                    let _ = self.windows.remove(id);
                    None
                } else {
                    Some(window)
                }
            },
            None => {
                assert(self@ =~= old(self)@.swept(id));
                None
            },
        }
    }

    fn used_by_others(&self, id: u64, surface: u64) -> (used: bool)
        ensures
            used == self@.used_by_others(id, surface),
    {
        let surfaces = self.views.keys();
        let mut i: usize = 0;
        while i < surfaces.len()
            invariant
                i <= surfaces.len(),
                forall|other: u64| surfaces@.contains(other) <==> self@.views.contains_key(other),
                forall|j: int|
                    0 <= j < i && #[trigger] surfaces@[j] != surface ==> !(
                    self@.views[surfaces@[j]].placed matches Some(placed) && placed.window == id),
            decreases surfaces.len() - i,
        {
            let other: u64 = surfaces[i];
            assert(surfaces@.contains(other));
            if other != surface {
                if let Some(view) = self.views.get(other) {
                    if let Some(placed) = view.placed {
                        if placed.window == id {
                            assert(self@.views.contains_key(other));
                            return true;
                        }
                    }
                }
            }
            i += 1;
        }
        proof {
            if self@.used_by_others(id, surface) {
                let other = choose|other: u64|
                    #![trigger self@.views.contains_key(other)]
                    other != surface && self@.views.contains_key(other) && (
                    self@.views[other].placed matches Some(placed) && placed.window == id);
                assert(surfaces@.contains(other));
                let j = choose|j: int| 0 <= j < surfaces@.len() && surfaces@[j] == other;
                assert(surfaces@[j] != surface);
            }
        }
        false
    }

    /// Detach a surface's root, and close its window if that was the last root in it.
    fn unplace(&mut self, surface: u64, placed: Option<Placement>) -> (unplaced: Option<Unplaced>)
        ensures
            unplaced == old(self)@.unplacing(surface, placed),
            final(self)@ == old(self)@.unplaced(surface, placed),
    {
        let placed = match placed {
            Some(placed) => placed,
            None => {
                return None;
            },
        };
        let used = self.used_by_others(placed.window, surface);
        match self.window(placed.window) {
            Some(window) => {
                if !used {
                    let _ = self.windows.remove(placed.window);
                }
                Some(
                    Unplaced { handle: window.handle(), root: placed.root, close_window: !used },
                )
            },
            None => {
                assert(self@ =~= old(self)@.unplaced(surface, Some(placed)));
                None
            },
        }
    }

    /// Give `surface` a view to draw, in place of one it had. Returns the registration's
    /// generation, which identifies it to [`PluginPlatform::remove_view`], and the root to
    /// detach.
    pub fn add_view(&mut self, surface: u64, view: u64) -> (added: (u64, Option<Unplaced>))
        requires
            old(self)@.next_generation < u64::MAX,
        ensures
            added.0 == old(self)@.next_generation,
            added.1 == old(self)@.unplacing(surface, old(self)@.placement(surface)),
            final(self)@ == old(self)@.view_added(surface, view),
    {
        let placed = match self.views.get(surface) {
            Some(previous) => previous.placed,
            None => None,
        };
        let unplaced = self.unplace(surface, placed);
        let generation: u64 = self.next_generation;
        self.next_generation = generation + 1;
        self.views.insert(surface, SurfaceView { view, generation, placed: None });
        (generation, unplaced)
    }

    /// Stop drawing on `surface`, if `generation` is still the registration drawing there.
    pub fn remove_view(&mut self, surface: u64, generation: u64) -> (unplaced: Option<Unplaced>)
        ensures
            unplaced == (if old(self)@.is_current(surface, generation) {
                old(self)@.unplacing(surface, old(self)@.placement(surface))
            } else {
                None
            }),
            final(self)@ == old(self)@.view_removed(surface, generation),
    {
        let placed = match self.views.get(surface) {
            Some(view) => {
                if view.generation != generation {
                    return None;
                }
                view.placed
            },
            None => {
                return None;
            },
        };
        let unplaced = self.unplace(surface, placed);
        let _ = self.views.remove(surface);
        unplaced
    }

    /// Record that the shared view object `view` draws on `surface`.
    pub fn bind_view_object(&mut self, view: u64, surface: u64)
        ensures
            final(self)@ == (PlatformModel {
                view_objects: old(self)@.view_objects.insert(view, surface),
                ..old(self)@
            }),
    {
        self.view_objects.insert(view, surface);
    }

    /// Forget the view object `view`.
    pub fn unbind_view_object(&mut self, view: u64)
        ensures
            final(self)@ == (PlatformModel {
                view_objects: old(self)@.view_objects.remove(view),
                ..old(self)@
            }),
    {
        let _ = self.view_objects.remove(view);
    }

    /// Route a synchronous query addressed to the view object `view`: a key-down goes
    /// through its window, a question to the window's focused text field. One for a view
    /// that is not drawn anywhere is answered with nothing.
    pub fn input_query(&mut self, view: u64, query: InputQuery) -> (step: QueryStep)
        ensures
            step == old(self)@.query_step(view, query),
            final(self)@ == old(self)@.after_query(view, query),
    {
        let surface: u64 = match self.view_objects.get(view) {
            Some(surface) => *surface,
            None => {
                return QueryStep::Answer(InputAnswer::Nothing);
            },
        };
        let placed = match self.views.get(surface) {
            Some(view) => view.placed,
            None => None,
        };
        let placed = match placed {
            Some(placed) => placed,
            None => {
                return QueryStep::Answer(InputAnswer::Nothing);
            },
        };
        let mut window = match self.window(placed.window) {
            Some(window) => window,
            None => {
                return QueryStep::Answer(InputAnswer::Nothing);
            },
        };
        match window_request(query) {
            WindowRequest::Dispatch(input) => {
                self.last_input_surface = Some(surface);
                let hand_over = window.dispatch_input(&input);
                self.windows.insert(placed.window, window);
                if hand_over {
                    QueryStep::Dispatch { window: placed.window, input }
                } else {
                    QueryStep::Answer(InputAnswer::Nothing)
                }
            },
            WindowRequest::Ask(question) => if window.with_input_handler() {
                QueryStep::Ask { window: placed.window, origin: placed.origin, question }
            } else {
                QueryStep::Answer(InputAnswer::Nothing)
            },
            WindowRequest::Unanswerable => QueryStep::Answer(InputAnswer::Nothing),
        }
    }
}

impl PluginPlatform {
    /// The open guest windows, by the host window each mirrors; closed ones are forgotten.
    pub fn windows(&mut self) -> (open: Vec<u64>)
        ensures
            open@.no_duplicates(),
            forall|id: u64| open@.contains(id) <==> old(self)@.is_open(id),
            final(self)@ == (PlatformModel {
                windows: Map::new(
                    |id: u64| old(self)@.is_open(id),
                    |id: u64| old(self)@.windows[id],
                ),
                ..old(self)@
            }),
    {
        let all = self.windows.keys();
        let mut open: Vec<u64> = Vec::new();
        let mut i: usize = 0;
        while i < all.len()
            invariant
                i <= all.len(),
                all@.no_duplicates(),
                forall|id: u64| all@.contains(id) <==> old(self)@.windows.contains_key(id),
                open@.no_duplicates(),
                forall|id: u64| #[trigger]
                    open@.contains(id) <==> old(self)@.is_open(id) && all@.take(i as int).contains(
                        id,
                    ),
                forall|id: u64| #[trigger]
                    self@.windows.contains_key(id) <==> old(self)@.windows.contains_key(id) && (
                    all@.take(i as int).contains(id) ==> old(self)@.is_open(id)),
                forall|id: u64| #[trigger]
                    self@.windows.contains_key(id) ==> self@.windows[id] == old(self)@.windows[id],
                self@ == (PlatformModel { windows: self@.windows, ..old(self)@ }),
            decreases all.len() - i,
        {
            let id: u64 = all[i];
            assert(all@.contains(id));
            assert(all@.take(i as int + 1) =~= all@.take(i as int).push(id));
            assert(!all@.take(i as int).contains(id));
            assert(forall|other: u64| #[trigger]
                all@.take(i as int).push(id).contains(other) <==> all@.take(i as int).contains(
                    other,
                ) || other == id) by {
                broadcast use vstd::seq_lib::group_seq_properties;

            }
            let ghost before = open@;
            assert(forall|other: u64| #[trigger]
                before.push(id).contains(other) <==> before.contains(other) || other == id) by {
                broadcast use vstd::seq_lib::group_seq_properties;

            }
            assert(!before.contains(id));
            assert(self@.windows.contains_key(id));
            assert(self@.is_open(id) == old(self)@.is_open(id));
            let ghost known = self@.windows;
            assert(forall|other: u64| other != id ==> (#[trigger] known.remove(id).contains_key(other)
                <==> known.contains_key(other)));
            if let Some(_) = self.window(id) {
                open.push(id);
            }
            i += 1;
        }
        assert(all@.take(i as int) =~= all@);
        assert(self@.windows =~= Map::new(
            |id: u64| old(self)@.is_open(id),
            |id: u64| old(self)@.windows[id],
        ));
        open
    }

    /// Put a surface's view where the host says it is: as a root of the guest window that
    /// mirrors the surface's host window (moving it between windows if the surface moved).
    /// Tells what the framework has to do next; [`PluginPlatform::record_placement`] ends
    /// it.
    pub fn place(&mut self, surface: u64, geometry: Geometry) -> (step: PlaceStep)
        ensures
            step@ == old(self)@.place_step(surface, geometry),
            final(self)@ == old(self)@.after_place(surface, geometry),
    {
        if geometry.width.at_most_zero() || geometry.height.at_most_zero() {
            return PlaceStep::Skip;
        }
        let view = match self.views.get(surface) {
            Some(view) => *view,
            None => {
                return PlaceStep::Skip;
            },
        };
        let id: u64 = geometry.window.id;
        let mut window = match self.window(id) {
            Some(window) => window,
            None => {
                self.pending_window = Some(geometry.window);
                return PlaceStep::OpenWindow;
            },
        };
        let handle = window.handle();
        let due = window.sync_host(geometry.window);
        self.windows.insert(id, window);
        assert(self@ =~= old(self)@.synced(geometry.window));
        match view.placed {
            Some(placed) => {
                if placed.window == id {
                    return PlaceStep::Move { due, handle, root: placed.root };
                }
            },
            None => {},
        }
        let unplaced = self.unplace(surface, view.placed);
        PlaceStep::Attach { due, handle, unplaced, view: view.view }
    }

    /// A surface's view is a root now: at `root` of the window that mirrors its host
    /// window, where the geometry says. A view that went away meanwhile is not.
    pub fn record_placement(&mut self, surface: u64, geometry: Geometry, root: u64)
        ensures
            final(self)@ == (if old(self)@.views.contains_key(surface) {
                PlatformModel {
                    views: old(self)@.views.insert(
                        surface,
                        SurfaceView {
                            placed: Some(
                                Placement {
                                    window: geometry.window.id,
                                    root,
                                    origin: WirePoint { x: geometry.x, y: geometry.y },
                                },
                            ),
                            ..old(self)@.views[surface]
                        },
                    ),
                    ..old(self)@
                }
            } else {
                old(self)@
            }),
    {
        let entry = match self.views.get(surface) {
            Some(entry) => *entry,
            None => {
                return ;
            },
        };
        self.views.insert(
            surface,
            SurfaceView {
                view: entry.view,
                generation: entry.generation,
                placed: Some(
                    Placement {
                        window: geometry.window.id,
                        root,
                        origin: WirePoint { x: geometry.x, y: geometry.y },
                    },
                ),
            },
        );
    }

    /// The framework opens a window: the mirror of the host window that was asked for.
    /// Nothing else can be opened here.
    pub fn open_window(&mut self) -> (opened: Result<u64, String>)
        ensures
            match old(self)@.pending_window {
                Some(host) => opened == Ok::<u64, String>(host.id) && final(self)@ == (
                PlatformModel {
                    windows: old(self)@.windows.insert(host.id, PluginWindowState::opened(host)),
                    pending_window: None,
                    ..old(self)@
                }),
                None => (opened matches Err(error) && error@
                    == "plugin windows mirror host windows; views are opened with embedded_gpui::open_view"@)
                    && final(self)@ == old(self)@,
            },
    {
        match self.pending_window {
            Some(host) => {
                self.pending_window = None;
                self.windows.insert(host.id, PluginWindowState::new(host));
                Ok(host.id)
            },
            None => Err(
                "plugin windows mirror host windows; views are opened with embedded_gpui::open_view".to_owned(),
            ),
        }
    }

    /// The framework opened the window mirroring host window `id`, and this is its handle.
    pub fn window_opened(&mut self, id: u64, handle: u64) -> (opened: Result<(), String>)
        ensures
            ({
                let cleared = PlatformModel { pending_window: None, ..old(self)@ };
                if old(self)@.is_open(id) {
                    opened is Ok && final(self)@ == (PlatformModel {
                        windows: old(self)@.windows.insert(
                            id,
                            PluginWindowState {
                                handle: Some(handle),
                                ..old(self)@.windows[id]
                            },
                        ),
                        ..cleared
                    })
                } else {
                    (opened matches Err(error) && error@
                        == "open_window did not create the guest window"@) && final(self)@
                        == cleared.swept(id)
                }
            }),
    {
        self.pending_window = None;
        match self.window(id) {
            Some(mut window) => {
                window.set_handle(handle);
                self.windows.insert(id, window);
                Ok(())
            },
            None => Err("open_window did not create the guest window".to_owned()),
        }
    }

    /// The framework dropped the window mirroring host window `id`.
    pub fn window_closed(&mut self, id: u64)
        ensures
            old(self)@.is_open(id) ==> final(self)@ == (PlatformModel {
                windows: old(self)@.windows.insert(id, old(self)@.windows[id].shut()),
                ..old(self)@
            }),
            !old(self)@.is_open(id) ==> final(self)@ == old(self)@.swept(id),
    {
        if let Some(mut window) = self.window(id) {
            window.close();
            self.windows.insert(id, window);
        }
    }

    /// Queue a host-driven event for the next pump.
    pub fn push_event(&mut self, event: SurfaceEvent)
        ensures
            final(self)@ == (PlatformModel {
                pending_events: old(self)@.pending_events.push(event),
                ..old(self)@
            }),
    {
        self.pending_events.push(event);
    }

    /// Take the queued events, to be applied in order: a resize by placing the surface,
    /// an input by dispatching it.
    pub fn flush_events(&mut self) -> (events: Vec<SurfaceEvent>)
        ensures
            events@ == old(self)@.pending_events,
            final(self)@ == (PlatformModel { pending_events: Seq::empty(), ..old(self)@ }),
    {
        let mut events: Vec<SurfaceEvent> = Vec::new();
        core::mem::swap(&mut events, &mut self.pending_events);
        events
    }

    /// Where a host-forwarded input event goes: the window the surface is placed in, at
    /// the slot's origin. Nowhere, if it is not placed.
    pub fn dispatch_input(&mut self, surface: u64) -> (target: Option<InputTarget>)
        ensures
            match old(self)@.placement(surface) {
                Some(placed) if old(self)@.is_open(placed.window) => target == Some(
                    InputTarget { window: placed.window, origin: placed.origin },
                ) && final(self)@ == (PlatformModel {
                    last_input_surface: Some(surface),
                    ..old(self)@
                }),
                Some(placed) => target is None && final(self)@ == old(self)@.swept(placed.window),
                None => target is None && final(self)@ == old(self)@,
            },
    {
        let placed = match self.views.get(surface) {
            Some(view) => view.placed,
            None => None,
        };
        let placed = match placed {
            Some(placed) => placed,
            None => {
                return None;
            },
        };
        match self.window(placed.window) {
            Some(_) => {
                self.last_input_surface = Some(surface);
                Some(InputTarget { window: placed.window, origin: placed.origin })
            },
            None => None,
        }
    }

    /// Note an event in the coordinates of the window mirroring host window `id`. Tells
    /// whether to hand it to the framework.
    pub fn window_input(&mut self, id: u64, input: &PlatformInput) -> (hand_over: bool)
        ensures
            hand_over == (old(self)@.is_open(id) && old(self)@.windows[id].callbacks.input),
            final(self)@ == (if old(self)@.is_open(id) {
                PlatformModel {
                    windows: old(self)@.windows.insert(
                        id,
                        old(self)@.windows[id].after_input(*input),
                    ),
                    ..old(self)@
                }
            } else {
                old(self)@.swept(id)
            }),
    {
        match self.window(id) {
            Some(mut window) => {
                let hand_over = window.dispatch_input(input);
                self.windows.insert(id, window);
                hand_over
            },
            None => false,
        }
    }

    /// The roots whose scenes may have to be shipped: each surface drawn in an open
    /// window, in no particular order.
    pub fn ship_scenes(&mut self) -> (items: Vec<ShipItem>)
        ensures
            old(self)@.ships(items@),
            final(self)@ == (PlatformModel {
                windows: Map::new(
                    |id: u64| old(self)@.is_open(id),
                    |id: u64| old(self)@.windows[id],
                ),
                ..old(self)@
            }),
    {
        let _ = self.windows();
        let surfaces = self.views.keys();
        let mut items: Vec<ShipItem> = Vec::new();
        let mut i: usize = 0;
        while i < surfaces.len()
            invariant
                i <= surfaces.len(),
                surfaces@.no_duplicates(),
                forall|surface: u64|
                    surfaces@.contains(surface) <==> self@.views.contains_key(surface),
                self@ == (PlatformModel { windows: self@.windows, ..old(self)@ }),
                forall|id: u64| #[trigger]
                    self@.windows.contains_key(id) <==> old(self)@.is_open(id),
                forall|id: u64| #[trigger]
                    self@.windows.contains_key(id) ==> self@.windows[id] == old(self)@.windows[id],
                forall|k: int|
                    0 <= k < items@.len() ==> old(self)@.ship_item((#[trigger] items@[k]).surface)
                        == Some(items@[k]),
                forall|k: int|
                    0 <= k < items@.len() ==> surfaces@.take(i as int).contains(
                        (#[trigger] items@[k]).surface,
                    ),
                forall|a: int, b: int|
                    0 <= a < b < items@.len() ==> (#[trigger] items@[a]).surface != (
                    #[trigger] items@[b]).surface,
                forall|j: int|
                    0 <= j < i && old(self)@.ship_item(#[trigger] surfaces@[j]) is Some ==> exists|
                        k: int,
                    |
                        0 <= k < items@.len() && (#[trigger] items@[k]).surface == surfaces@[j],
            decreases surfaces.len() - i,
        {
            let surface: u64 = surfaces[i];
            let ghost before = items@;
            assert(surfaces@.contains(surface));
            assert(surfaces@.take(i as int + 1) =~= surfaces@.take(i as int).push(surface));
            assert(!surfaces@.take(i as int).contains(surface));
            assert(forall|other: u64| #[trigger]
                surfaces@.take(i as int).push(surface).contains(other) <==> surfaces@.take(
                    i as int,
                ).contains(other) || other == surface) by {
                broadcast use vstd::seq_lib::group_seq_properties;

            }
            if let Some(view) = self.views.get(surface) {
                if let Some(placed) = view.placed {
                    if let Some(window) = self.windows.get(placed.window) {
                        if window.handle.is_some() {
                            items.push(
                                ShipItem {
                                    window: placed.window,
                                    surface,
                                    root: placed.root,
                                    origin: placed.origin,
                                    include_unowned: match self.last_input_surface {
                                        Some(last) => last == surface,
                                        None => false,
                                    },
                                },
                            );
                            assert(items@[before.len() as int].surface == surface);
                            assert(forall|k: int|
                                0 <= k < before.len() ==> items@[k] == #[trigger] before[k]);
                        }
                    }
                }
            }
            assert forall|j: int|
                0 <= j < i + 1 && old(self)@.ship_item(
                    #[trigger] surfaces@[j],
                ) is Some implies exists|k: int|
                0 <= k < items@.len() && (#[trigger] items@[k]).surface == surfaces@[j] by {
                if j < i {
                    let k = choose|k: int|
                        0 <= k < before.len() && (#[trigger] before[k]).surface == surfaces@[j];
                    assert(items@[k].surface == surfaces@[j]);
                }
            }
            i += 1;
        }
        assert forall|surface: u64| #[trigger]
            old(self)@.ship_item(surface) is Some implies exists|k: int|
            0 <= k < items@.len() && (#[trigger] items@[k]).surface == surface by {
            assert(surfaces@.contains(surface));
            let j = choose|j: int| 0 <= j < surfaces@.len() && surfaces@[j] == surface;
            assert(old(self)@.ship_item(surfaces@[j]) is Some);
        }
        items
    }

    /// The framework set a cursor; it goes out with the next pump.
    pub fn set_cursor_style(&mut self, style: CursorStyle)
        ensures
            final(self)@ == (PlatformModel {
                pending_cursor: Some(Cursor::spec_from_gpui(style)),
                ..old(self)@
            }),
    {
        self.pending_cursor = Some(Cursor::from_gpui(style));
    }

    /// The cursor change requested since the last pump, and the surface it is for: the one
    /// that most recently received input. A change without such a surface is dropped.
    pub fn take_pending_cursor(&mut self) -> (change: Option<(u64, Cursor)>)
        ensures
            final(self)@ == (PlatformModel { pending_cursor: None, ..old(self)@ }),
            change == (match (old(self)@.pending_cursor, old(self)@.last_input_surface) {
                (Some(cursor), Some(surface)) if old(self)@.views.contains_key(surface) => Some(
                    (surface, cursor),
                ),
                _ => None,
            }),
    {
        let cursor = match self.pending_cursor {
            Some(cursor) => cursor,
            None => {
                return None;
            },
        };
        self.pending_cursor = None;
        match self.last_input_surface {
            Some(surface) => if self.views.contains_key(surface) {
                Some((surface, cursor))
            } else {
                None
            },
            None => None,
        }
    }
}

/// A release that is still pending when its surface was reopened does not take the new
/// view away.
pub proof fn reopened_views_survive_old_releases(
    platform: PlatformModel,
    surface: u64,
    view: u64,
    generation: u64,
)
    requires
        platform.generations_wf(),
        platform.next_generation < u64::MAX,
        platform.is_current(surface, generation),
    ensures
        platform.view_added(surface, view).view_removed(surface, generation)
            == platform.view_added(surface, view),
        platform.view_added(surface, view).generations_wf(),
{
}

/// Giving a registration up keeps every other surface's view.
pub proof fn removing_a_view_keeps_the_others(
    platform: PlatformModel,
    surface: u64,
    generation: u64,
    other: u64,
)
    requires
        platform.generations_wf(),
        other != surface,
    ensures
        platform.view_removed(surface, generation).views.contains_key(other)
            == platform.views.contains_key(other),
        platform.views.contains_key(other) ==> platform.view_removed(
            surface,
            generation,
        ).views[other] == platform.views[other],
        platform.view_removed(surface, generation).generations_wf(),
{
}

/// A surface that leaves the last root of a window takes the window with it; otherwise
/// the window stays.
pub proof fn windows_close_with_their_last_root(
    platform: PlatformModel,
    surface: u64,
    placed: Placement,
)
    requires
        platform.is_open(placed.window),
    ensures
        platform.unplaced(surface, Some(placed)).is_open(placed.window)
            <==> platform.used_by_others(placed.window, surface),
        platform.unplacing(surface, Some(placed)) matches Some(unplaced) && unplaced.close_window
            == !platform.used_by_others(placed.window, surface),
{
}

/// A question about a view goes to the window its surface is drawn in, and nowhere else: a key
/// to the window where it takes input, anything else a field can answer to the window's text
/// field, told where the slot is. Where nothing is drawn, or nobody listens, nothing is said.
pub proof fn questions_reach_the_window_of_their_view(
    platform: PlatformModel,
    view: u64,
    query: InputQuery,
)
    ensures
        platform.query_step(view, query) matches QueryStep::Answer(answer) ==> answer is Nothing,
        !platform.view_objects.contains_key(view) ==> platform.query_step(view, query) is Answer
            && platform.after_query(view, query) == platform,
        platform.view_objects.contains_key(view) ==> {
            let surface = platform.view_objects[view];
            let drawn = platform.views.contains_key(surface) && platform.views[surface].placed
                is Some;
            let placed = platform.views[surface].placed->0;
            let open = platform.windows.contains_key(placed.window)
                && !platform.windows[placed.window].closed;
            &&& !drawn ==> platform.query_step(view, query) is Answer && platform.after_query(
                view,
                query,
            ) == platform
            &&& drawn && !open ==> platform.query_step(view, query) is Answer
            &&& drawn && open ==> {
                let window = platform.windows[placed.window];
                &&& platform.query_step(view, query) is Dispatch <==> spec_window_request(query)
                    is Dispatch && window.callbacks.input
                &&& platform.query_step(view, query) matches QueryStep::Dispatch {
                    window: id,
                    input,
                } ==> id == placed.window && spec_window_request(query) == WindowRequest::Dispatch(
                    input,
                )
                &&& platform.query_step(view, query) is Ask <==> spec_window_request(query) is Ask
                    && window.input_handler
                &&& platform.query_step(view, query) matches QueryStep::Ask {
                    window: id,
                    origin,
                    question,
                } ==> id == placed.window && origin.x == placed.origin.x && origin.y
                    == placed.origin.y && spec_window_request(query) == WindowRequest::Ask(question)
                &&& spec_window_request(query) matches WindowRequest::Dispatch(input)
                    ==> platform.after_query(view, query).last_input_surface == Some(surface)
                    && platform.after_query(view, query).windows[placed.window]
                    == window.after_input(input)
                &&& !(spec_window_request(query) is Dispatch) ==> platform.after_query(view, query)
                    == platform
            }
        },
{
}

/// A surface is placed in the guest window that mirrors its host window. An empty slot, or one
/// nobody draws on, is not placed. Where the window is not open it is asked for, to mirror that
/// host window. A view that is in it already is moved there, as the root it is; any other is
/// attached anew, after the root it was elsewhere is detached.
pub proof fn surfaces_are_placed_in_their_window(
    platform: PlatformModel,
    surface: u64,
    geometry: Geometry,
)
    ensures
        ({
            let step = platform.place_step(surface, geometry);
            let after = platform.after_place(surface, geometry);
            let id = geometry.window.id;
            let empty = geometry.width.spec_at_most_zero() || geometry.height.spec_at_most_zero();
            let open = platform.windows.contains_key(id) && !platform.windows[id].closed;
            let view = platform.views[surface];
            &&& step is Skip <==> empty || !platform.views.contains_key(surface)
            &&& step is Skip ==> after == platform
            &&& step is OpenWindow <==> !(step is Skip) && !open
            &&& step is OpenWindow ==> after.pending_window == Some(geometry.window)
                && !after.windows.contains_key(id) && after.views == platform.views
            &&& step is Move <==> !(step is Skip) && open && (
            view.placed matches Some(placed) && placed.window == id)
            &&& step matches PlaceStepModel::Move { due, handle, root } ==> {
                &&& due == platform.windows[id].due_callbacks(geometry.window)
                &&& handle == platform.windows[id].handle
                &&& root == view.placed->0.root
            }
            &&& step matches PlaceStepModel::Attach { due, handle, unplaced, view: attached } ==> {
                &&& due == platform.windows[id].due_callbacks(geometry.window)
                &&& handle == platform.windows[id].handle
                &&& attached == view.view
                &&& view.placed is None ==> unplaced is None
                &&& unplaced matches Some(unplaced) ==> unplaced.root == view.placed->0.root
                    && unplaced.handle == platform.windows[view.placed->0.window].handle
            }
            &&& step is Move || step is Attach ==> after.windows.contains_key(id)
                && after.windows[id].host.spec_same(geometry.window) || geometry.window.width.is_nan()
                || geometry.window.height.is_nan() || geometry.window.scale_factor.is_nan()
        }),
{
}

/// What a step of a placement holds is the step itself.
pub proof fn place_steps_hold_what_they_say(step: PlaceStep)
    ensures
        match step {
            PlaceStep::Skip => step@ is Skip,
            PlaceStep::OpenWindow => step@ is OpenWindow,
            PlaceStep::Move { due, handle, root } => step@ == (PlaceStepModel::Move {
                due: due@,
                handle,
                root,
            }),
            PlaceStep::Attach { due, handle, unplaced, view } => step@ == (PlaceStepModel::Attach {
                due: due@,
                handle,
                unplaced,
                view,
            }),
        },
{
}

/// A view opened on a surface draws there, in place of one before it, under a registration of
/// its own, and is drawn nowhere until it is placed; giving that registration up takes it away
/// again. No other surface's view is touched by either.
pub proof fn views_draw_where_they_were_opened(
    platform: PlatformModel,
    surface: u64,
    view: u64,
    other: u64,
)
    requires
        platform.next_generation < u64::MAX,
    ensures
        ({
            let added = platform.view_added(surface, view);
            let removed = added.view_removed(surface, platform.next_generation);
            &&& added.views.contains_key(surface)
            &&& added.views[surface].view == view
            &&& added.views[surface].generation == platform.next_generation
            &&& added.views[surface].placed is None
            &&& added.next_generation == platform.next_generation + 1
            &&& !removed.views.contains_key(surface)
            &&& other != surface ==> added.views.contains_key(other)
                == platform.views.contains_key(other) && added.views[other]
                == platform.views[other]
            &&& other != surface ==> removed.views.contains_key(other)
                == platform.views.contains_key(other) && removed.views[other]
                == platform.views[other]
            &&& added.ship_item(surface) is None
        }),
{
}

/// A surface is shipped to exactly where it is drawn: from the open window it is placed in, once
/// the framework has a handle on that window, as the root it is, at the slot's origin. What
/// belongs to no root goes with the surface that received input last.
pub proof fn scenes_ship_from_where_they_are_drawn(platform: PlatformModel, surface: u64)
    ensures
        platform.ship_item(surface) is Some <==> {
            &&& platform.views.contains_key(surface)
            &&& platform.views[surface].placed matches Some(placed)
            &&& platform.windows.contains_key(placed.window)
            &&& !platform.windows[placed.window].closed
            &&& platform.windows[placed.window].handle is Some
        },
        platform.ship_item(surface) matches Some(item) ==> {
            let placed = platform.views[surface].placed->0;
            &&& item.surface == surface
            &&& item.window == placed.window
            &&& item.root == placed.root
            &&& item.origin.x == placed.origin.x
            &&& item.origin.y == placed.origin.y
            &&& item.include_unowned <==> platform.last_input_surface == Some(surface)
        },
{
}

/// A root is detached from the window it is in, by the framework's handle on that window; the
/// window closes with it exactly where no other surface is drawn there. Closing it touches no
/// other window, and no view.
pub proof fn roots_leave_the_window_they_are_in(
    platform: PlatformModel,
    surface: u64,
    placed: Placement,
    other: u64,
    elsewhere: u64,
)
    ensures
        platform.unplacing(surface, None) is None,
        platform.unplaced(surface, None) == platform,
        platform.unplacing(surface, Some(placed)) is Some <==> platform.windows.contains_key(
            placed.window,
        ) && !platform.windows[placed.window].closed,
        platform.unplacing(surface, Some(placed)) matches Some(unplaced) ==> {
            &&& unplaced.root == placed.root
            &&& unplaced.handle == platform.windows[placed.window].handle
            &&& other != surface && platform.views.contains_key(other) && (
            platform.views[other].placed matches Some(there) && there.window == placed.window)
                ==> !unplaced.close_window && platform.unplaced(
                surface,
                Some(placed),
            ).windows.contains_key(placed.window)
            &&& !unplaced.close_window ==> exists|other: u64|
                #![trigger platform.views.contains_key(other)]
                other != surface && platform.views.contains_key(other) && (
                platform.views[other].placed matches Some(there) && there.window == placed.window)
        },
        platform.unplaced(surface, Some(placed)).views == platform.views,
        elsewhere != placed.window ==> platform.unplaced(
            surface,
            Some(placed),
        ).windows.contains_key(elsewhere) == platform.windows.contains_key(elsewhere)
            && platform.unplaced(surface, Some(placed)).windows[elsewhere]
            == platform.windows[elsewhere],
{
}

/// Everything that can be shipped is, once for each surface that is drawn in an open window, and
/// nothing else.
pub proof fn every_drawn_surface_ships_once(
    platform: PlatformModel,
    items: Seq<ShipItem>,
    surface: u64,
)
    requires
        platform.ships(items),
    ensures
        (exists|i: int| 0 <= i < items.len() && (#[trigger] items[i]).surface == surface) <==> {
            &&& platform.views.contains_key(surface)
            &&& platform.views[surface].placed matches Some(placed)
            &&& platform.windows.contains_key(placed.window)
            &&& !platform.windows[placed.window].closed
            &&& platform.windows[placed.window].handle is Some
        },
        forall|i: int, j: int|
            0 <= i < j < items.len() ==> (#[trigger] items[i]).surface != (
            #[trigger] items[j]).surface,
        forall|i: int|
            0 <= i < items.len() ==> {
                let placed = platform.views[(#[trigger] items[i]).surface].placed->0;
                &&& items[i].window == placed.window
                &&& items[i].root == placed.root
                &&& items[i].origin == placed.origin
            },
{
    assert(platform.ship_item(surface) is Some <==> (exists|i: int|
        0 <= i < items.len() && (#[trigger] items[i]).surface == surface));
    assert forall|i: int| 0 <= i < items.len() implies {
        let placed = platform.views[(#[trigger] items[i]).surface].placed->0;
        &&& items[i].window == placed.window
        &&& items[i].root == placed.root
        &&& items[i].origin == placed.origin
    } by {
        assert(platform.ship_item(items[i].surface) == Some(items[i]));
    }
}

/// A mirror takes on what the host window is now, whenever that is not the same; the other
/// windows stay. A window that was closed is forgotten, and an open one is not.
pub proof fn mirrors_follow_their_window(platform: PlatformModel, host: HostWindow, other: u64)
    ensures
        !platform.windows[host.id].host.spec_same(host) ==> platform.synced(
            host,
        ).windows[host.id].host == host,
        platform.windows[host.id].host.spec_same(host) ==> platform.synced(host) == platform,
        other != host.id ==> platform.synced(host).windows[other] == platform.windows[other]
            && platform.synced(host).windows.contains_key(other) == platform.windows.contains_key(
            other,
        ),
        platform.synced(host).views == platform.views,
        platform.windows.contains_key(other) && platform.windows[other].closed
            ==> !platform.swept(other).windows.contains_key(other),
        platform.windows.contains_key(other) && !platform.windows[other].closed ==> platform.swept(
            other,
        ) == platform,
        platform.swept(other).views == platform.views,
        PlatformModel::initial().windows.dom() =~= Set::empty(),
        PlatformModel::initial().views.dom() =~= Set::empty(),
        PlatformModel::initial().view_objects.dom() =~= Set::empty(),
        PlatformModel::initial().last_input_surface is None,
        PlatformModel::initial().pending_window is None,
{
}

} // verus!
