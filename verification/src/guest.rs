//! The guest's end of a plugin: its object registry, its platform, and what it has to show
//! for a turn.

use vstd::prelude::*;
use crate::dispatcher::{is_earliest, wake_after_ms, whole_millis, PluginDispatcher};
use crate::display_list::{DisplayList, Scene};
use crate::frame::{
    frame_from_wire, frame_models, frame_to_wire, from_wire, to_wire, Frame, FrameModel, Payload,
    PayloadModel, WireFrame, WireModel,
};
use crate::guest_platform::{PlatformModel, PluginPlatform, SurfaceEvent, Unplaced};
use crate::model::{shared_home, EntityToken, ObjectsModel, ROOT_ADDRESS};
use crate::registry::{Delivery, MintError, Objects, Remote};
use crate::surface::{Geometry, KeyEvent, MouseEvent};
use crate::worker::{wire_models, Turn};

verus! {

/// What a guest holds.
#[verifier::ext_equal]
pub struct GuestModel {
    pub objects: ObjectsModel,
    pub platform: PlatformModel,
    /// The display lists rendered since the last turn.
    pub scenes: Seq<Scene>,
    pub overlays: Seq<Scene>,
}

/// A view opened on a surface, and its place there.
#[derive(Debug)]
pub struct ViewHandle {
    /// The surface it draws on.
    pub surface: Remote,
    /// The registration it draws under.
    pub generation: u64,
    /// The object the host drives it through.
    pub view_object: u64,
}

/// A guest.
pub struct Guest {
    objects: Objects,
    platform: PluginPlatform,
    scenes: Vec<Scene>,
    overlays: Vec<Scene>,
}

impl View for Guest {
    type V = GuestModel;

    closed spec fn view(&self) -> GuestModel {
        GuestModel {
            objects: self.objects@,
            platform: self.platform@,
            scenes: self.scenes@,
            overlays: self.overlays@,
        }
    }
}

impl GuestModel {
    /// The state after the queued releases were sent.
    pub open spec fn drained(self) -> GuestModel {
        GuestModel {
            objects: ObjectsModel { releases: Seq::empty(), ..self.objects }.released_all(
                self.objects.releases,
            ),
            ..self
        }
    }

    /// The state after an event for the view on a surface was queued.
    pub open spec fn with_event(self, event: SurfaceEvent) -> GuestModel {
        GuestModel {
            platform: PlatformModel {
                pending_events: self.platform.pending_events.push(event),
                ..self.platform
            },
            ..self
        }
    }
}

impl Guest {
    /// A guest in which nothing has happened yet.
    pub fn new() -> (guest: Guest)
        ensures
            guest@ == (GuestModel {
                objects: ObjectsModel::initial(),
                platform: PlatformModel::initial(),
                scenes: Seq::empty(),
                overlays: Seq::empty(),
            }),
            guest@.objects.wf(),
    {
        Guest {
            objects: Objects::new(),
            platform: PluginPlatform::new(),
            scenes: Vec::new(),
            overlays: Vec::new(),
        }
    }

    /// This end's registry, for sharing and connecting from anywhere.
    pub fn registry(&mut self) -> (objects: &mut Objects)
        ensures
            objects@ == old(self)@.objects,
            final(self)@ == (GuestModel { objects: final(objects)@, ..old(self)@ }),
    {
        &mut self.objects
    }

    /// The platform the guest's UI runs on.
    pub fn platform(&mut self) -> (platform: &mut PluginPlatform)
        ensures
            platform@ == old(self)@.platform,
            final(self)@ == (GuestModel { platform: final(platform)@, ..old(self)@ }),
    {
        &mut self.platform
    }

    /// Install `entity` as this end's root object: the single capability the other end
    /// starts from. Root traffic that arrived first comes back, to be delivered now, in
    /// order.
    pub fn share_root(
        &mut self,
        interface: &str,
        handler: u64,
        entity: EntityToken,
        keep_alive: bool,
    ) -> (queued: Vec<Frame>)
        requires
            old(self)@.objects.wf(),
        ensures
            final(self)@ == (GuestModel {
                objects: ObjectsModel {
                    pending_root_frames: Seq::empty(),
                    ..old(self)@.objects.installed(
                        ROOT_ADDRESS,
                        shared_home(interface@, handler, entity, keep_alive),
                    )
                },
                ..old(self)@
            }),
            frame_models(queued@) == old(self)@.objects.pending_root_frames,
            final(self)@.objects.wf(),
    {
        self.objects.share_root(interface, handler, entity, keep_alive)
    }

    /// Attach to the other end's root object: the capability everything starts from.
    /// Returns at once; root traffic queues until the other end's root is installed.
    pub fn root(&mut self, interface: &str) -> (remote: Remote)
        requires
            old(self)@.objects.wf(),
            old(self)@.objects.projections.contains_key(ROOT_ADDRESS)
                ==> old(self)@.objects.projections[ROOT_ADDRESS].handles < u64::MAX,
        ensures
            remote.spec_id() == ROOT_ADDRESS,
            final(self)@ == (GuestModel {
                objects: old(self)@.objects.connected(ROOT_ADDRESS, interface@),
                ..old(self)@
            }),
            final(self)@.objects.wf(),
    {
        self.objects.root(interface)
    }

    /// Flush queued capability releases, so drops become observable to the other end
    /// promptly.
    pub fn drain_releases(&mut self)
        requires
            old(self)@.objects.wf(),
        ensures
            final(self)@ == old(self)@.drained(),
            final(self)@.objects.wf(),
    {
        self.objects.drain_releases();
    }

    /// Apply one frame of a turn. A turn's frames are applied in order.
    pub fn deliver(&mut self, inbound: WireFrame) -> (delivery: Delivery)
        requires
            old(self)@.objects.wf(),
        ensures
            final(self)@ == (GuestModel {
                objects: old(self)@.objects.delivered(from_wire(inbound@)),
                ..old(self)@
            }),
            delivery@ == old(self)@.objects.delivery(from_wire(inbound@)),
            final(self)@.objects.wf(),
    {
        self.objects.deliver(frame_from_wire(inbound))
    }

    /// Queue a rendered display list for the host.
    pub fn push_scene(&mut self, surface: u64, list: DisplayList)
        ensures
            final(self)@ == (GuestModel {
                scenes: old(self)@.scenes.push(Scene { surface, list }),
                ..old(self)@
            }),
    {
        self.scenes.push(Scene { surface, list });
    }

    /// Queue a surface's overlay display list for the host.
    pub fn push_overlay(&mut self, surface: u64, list: DisplayList)
        ensures
            final(self)@ == (GuestModel {
                overlays: old(self)@.overlays.push(Scene { surface, list }),
                ..old(self)@
            }),
    {
        self.overlays.push(Scene { surface, list });
    }

    /// Everything queued since the last turn, as the host gets it.
    pub fn take_turn(&mut self, wake_after_ms: Option<u32>) -> (turn: Turn)
        requires
            old(self)@.objects.wf(),
        ensures
            wire_models(turn.frames@) == old(self)@.objects.outbound.map_values(
                |frame: FrameModel| to_wire(frame),
            ),
            turn.scenes@ == old(self)@.scenes,
            turn.overlays@ == old(self)@.overlays,
            turn.wake_after_ms == wake_after_ms,
            final(self)@ == (GuestModel {
                objects: ObjectsModel { outbound: Seq::empty(), ..old(self)@.objects },
                scenes: Seq::empty(),
                overlays: Seq::empty(),
                ..old(self)@
            }),
            final(self)@.objects.wf(),
    {
        let outbound = self.objects.take_outbound();
        let frames = frames_to_wire(outbound);
        let mut scenes: Vec<Scene> = Vec::new();
        core::mem::swap(&mut scenes, &mut self.scenes);
        let mut overlays: Vec<Scene> = Vec::new();
        core::mem::swap(&mut overlays, &mut self.overlays);
        Turn { frames, scenes, overlays, wake_after_ms }
    }

    /// The host moved or resized a surface: queued for the pump.
    pub fn resize(&mut self, surface: u64, geometry: Geometry)
        ensures
            final(self)@ == old(self)@.with_event(SurfaceEvent::Resize { surface, geometry }),
    {
        self.platform.push_event(SurfaceEvent::Resize { surface, geometry });
    }

    /// The host forwarded a mouse event to a surface: queued for the pump.
    pub fn mouse(&mut self, surface: u64, event: MouseEvent)
        ensures
            final(self)@ == old(self)@.with_event(
                SurfaceEvent::Input { surface, input: event.spec_to_platform_input() },
            ),
    {
        self.platform.push_event(
            SurfaceEvent::Input { surface, input: event.to_platform_input() },
        );
    }

    /// The host forwarded a key event to a surface: queued for the pump.
    pub fn key(&mut self, surface: u64, event: KeyEvent)
        ensures
            final(self)@ == old(self)@.with_event(
                SurfaceEvent::Input { surface, input: event.spec_to_platform_input() },
            ),
    {
        self.platform.push_event(
            SurfaceEvent::Input { surface, input: event.to_platform_input() },
        );
    }

    /// Draw on a host surface: register the view, share the object the host drives it
    /// through, and attach that to the surface. `arguments` are the bytes of the attach
    /// call, whose one ref is the view object. Any root of a view that drew there before
    /// is to be detached.
    pub fn open_view(
        &mut self,
        surface: u64,
        view: u64,
        handler: u64,
        entity: EntityToken,
        arguments: Vec<u8>,
        receipt: u64,
    ) -> (opened: Result<(ViewHandle, Option<Unplaced>), MintError>)
        requires
            old(self)@.objects.wf(),
            old(self)@.objects.projections.contains_key(surface)
                ==> old(self)@.objects.projections[surface].handles < u64::MAX,
            old(self)@.objects.next_request_id < u64::MAX,
            old(self)@.platform.next_generation < u64::MAX,
        ensures
            final(self)@.objects.wf(),
            match opened {
                Ok((handle, unplaced)) => {
                    let connected = old(self)@.objects.connected(surface, "SurfaceApi"@);
                    &&& handle.surface.spec_id() == surface
                    &&& handle.generation == old(self)@.platform.next_generation
                    &&& connected.mintable(handle.view_object)
                    &&& unplaced == old(self)@.platform.unplacing(
                        surface,
                        old(self)@.platform.placement(surface),
                    )
                    &&& final(self)@ == (GuestModel {
                        objects: connected.installed(
                            handle.view_object,
                            shared_home("ViewApi"@, handler, entity, true),
                        ).called(
                            surface,
                            "attach"@,
                            PayloadModel { bytes: arguments@, refs: seq![handle.view_object] },
                            Some(receipt),
                            None,
                        ),
                        platform: PlatformModel {
                            view_objects: old(self)@.platform.view_objects.insert(
                                handle.view_object,
                                surface,
                            ),
                            ..old(self)@.platform.view_added(surface, view)
                        },
                        ..old(self)@
                    })
                },
                Err(_) => final(self)@ == (GuestModel {
                    objects: old(self)@.objects.connected(surface, "SurfaceApi"@).dropped(surface),
                    ..old(self)@
                }),
            },
    {
        let remote = self.objects.connect_id(surface, "SurfaceApi");
        let view_object: u64 = match self.objects.reserve_local_id() {
            Ok(view_object) => view_object,
            Err(error) => {
                self.objects.drop_remote(remote);
                return Err(error);
            },
        };
        Ok(self.open_view_at(remote, view_object, view, handler, entity, arguments, receipt))
    }

    /// [`Guest::open_view`] on a surface that is connected, with `view_object`, an id that
    /// was minted for the view.
    pub fn open_view_at(
        &mut self,
        surface: Remote,
        view_object: u64,
        view: u64,
        handler: u64,
        entity: EntityToken,
        arguments: Vec<u8>,
        receipt: u64,
    ) -> (opened: (ViewHandle, Option<Unplaced>))
        requires
            old(self)@.objects.wf(),
            old(self)@.objects.mintable(view_object),
            old(self)@.objects.next_request_id < u64::MAX,
            old(self)@.platform.next_generation < u64::MAX,
        ensures
            final(self)@.objects.wf(),
            opened.0.surface == surface,
            opened.0.view_object == view_object,
            opened.0.generation == old(self)@.platform.next_generation,
            opened.1 == old(self)@.platform.unplacing(
                surface.spec_id(),
                old(self)@.platform.placement(surface.spec_id()),
            ),
            final(self)@ == (GuestModel {
                objects: old(self)@.objects.installed(
                    view_object,
                    shared_home("ViewApi"@, handler, entity, true),
                ).called(
                    surface.spec_id(),
                    "attach"@,
                    PayloadModel { bytes: arguments@, refs: seq![view_object] },
                    Some(receipt),
                    None,
                ),
                platform: PlatformModel {
                    view_objects: old(self)@.platform.view_objects.insert(
                        view_object,
                        surface.spec_id(),
                    ),
                    ..old(self)@.platform.view_added(surface.spec_id(), view)
                },
                ..old(self)@
            }),
    {
        self.objects.share_at(view_object, "ViewApi", handler, entity, true);
        let (generation, unplaced) = self.platform.add_view(surface.id(), view);
        self.platform.bind_view_object(view_object, surface.id());
        let mut refs: Vec<u64> = Vec::new();
        refs.push(view_object);
        assert(refs@ =~= seq![view_object]);
        self.objects.send(
            surface.id(),
            "attach",
            Payload::from_parts(arguments, refs),
            Some(receipt),
            None,
        );
        (ViewHandle { surface, generation, view_object }, unplaced)
    }

    /// Stop drawing on a surface: the view's root is detached, and the host's geometry and
    /// input for it are ignored from here on. The surface itself is untouched.
    pub fn close_view(&mut self, handle: ViewHandle) -> (unplaced: Option<Unplaced>)
        requires
            old(self)@.objects.wf(),
            old(self)@.objects.projections.contains_key(handle.surface.spec_id()),
            old(self)@.objects.projections[handle.surface.spec_id()].handles > 0,
        ensures
            ({
                let surface = handle.surface.spec_id();
                let removed = old(self)@.platform.view_removed(surface, handle.generation);
                &&& final(self)@ == (GuestModel {
                    objects: old(self)@.objects.dropped(surface),
                    platform: PlatformModel {
                        view_objects: removed.view_objects.remove(handle.view_object),
                        ..removed
                    },
                    ..old(self)@
                })
                &&& unplaced == (if old(self)@.platform.is_current(surface, handle.generation) {
                    old(self)@.platform.unplacing(
                        surface,
                        old(self)@.platform.placement(surface),
                    )
                } else {
                    None
                })
            }),
            final(self)@.objects.wf(),
    {
        let surface: u64 = handle.surface.id();
        let unplaced = self.platform.remove_view(surface, handle.generation);
        self.platform.unbind_view_object(handle.view_object);
        self.objects.drop_remote(handle.surface);
        unplaced
    }
}

/// One thing a turn does, once the frames that came with it were applied.
#[derive(Clone, Copy, Debug, PartialEq, Eq, Structural)]
pub enum PumpStep {
    /// Flush queued capability releases.
    DrainReleases,
    /// Apply the geometry and input that was queued.
    FlushEvents,
    /// Make passes of the scheduler until one has nothing to run.
    RunUntilIdle,
    /// Let the windows redraw.
    PumpFrames,
    /// Queue the display lists of the roots that changed.
    ShipScenes,
    /// Tell the surface that got the last input of a cursor that was set.
    SetCursor,
}

/// What a turn does, in order. Events are applied before the scheduler runs, and it runs
/// again after the windows redrew, so a turn leaves nothing queued; releases are flushed
/// before anything else and again at the end. Without a window there is nothing to apply,
/// redraw or ship.
pub open spec fn turn_steps(window_open: bool) -> Seq<PumpStep> {
    if window_open {
        seq![
            PumpStep::DrainReleases,
            PumpStep::FlushEvents,
            PumpStep::RunUntilIdle,
            PumpStep::PumpFrames,
            PumpStep::RunUntilIdle,
            PumpStep::ShipScenes,
            PumpStep::SetCursor,
            PumpStep::DrainReleases,
        ]
    } else {
        seq![
            PumpStep::DrainReleases,
            PumpStep::RunUntilIdle,
            PumpStep::RunUntilIdle,
            PumpStep::SetCursor,
            PumpStep::DrainReleases,
        ]
    }
}

/// What a turn does, in order.
pub fn pump(window_open: bool) -> (steps: Vec<PumpStep>)
    ensures
        steps@ == turn_steps(window_open),
{
    let steps: Vec<PumpStep> = if window_open {
        vec![
            PumpStep::DrainReleases,
            PumpStep::FlushEvents,
            PumpStep::RunUntilIdle,
            PumpStep::PumpFrames,
            PumpStep::RunUntilIdle,
            PumpStep::ShipScenes,
            PumpStep::SetCursor,
            PumpStep::DrainReleases,
        ]
    } else {
        vec![
            PumpStep::DrainReleases,
            PumpStep::RunUntilIdle,
            PumpStep::RunUntilIdle,
            PumpStep::SetCursor,
            PumpStep::DrainReleases,
        ]
    };
    assert(steps@ =~= turn_steps(window_open));
    steps
}

/// When the guest wants its next turn: the earliest timer, in whole milliseconds.
pub fn next_wake(dispatcher: &PluginDispatcher, now: u64) -> (wake: Option<u32>)
    ensures
        wake is None <==> dispatcher@.timers.len() == 0,
        wake matches Some(wake) ==> exists|delay: u64| #[trigger]
            is_earliest(dispatcher@.timers, now, delay) && wake == whole_millis(delay),
{
    wake_after_ms(dispatcher.next_timer_delay(now))
}

fn frames_to_wire(frames: Vec<Frame>) -> (wire: Vec<WireFrame>)
    ensures
        wire_models(wire@) == frame_models(frames@).map_values(|frame: FrameModel| to_wire(frame)),
{
    let ghost each = |frame: FrameModel| to_wire(frame);
    let ghost sent = frame_models(frames@);
    let mut wire: Vec<WireFrame> = Vec::new();
    assert(wire_models(wire@) =~= sent.take(0).map_values(each));
    for frame in it: frames
        invariant
            it.seq() == frames@,
            sent == frame_models(frames@),
            each == (|frame: FrameModel| to_wire(frame)),
            wire_models(wire@) == sent.take(it.index() as int).map_values(each),
    {
        let ghost index = it.index() as int;
        let ghost before = wire_models(wire@);
        assert(frame@ == sent[index]);
        wire.push(frame_to_wire(frame));
        assert(wire_models(wire@) =~= before.push(to_wire(sent[index])));
        assert(wire_models(wire@) =~= sent.take(index + 1).map_values(each));
    }
    assert(sent.take(sent.len() as int) =~= sent);
    wire
}

/// What a guest sends in a turn is what the host's registry is then handed: the same
/// frames, in order.
pub proof fn turns_carry_every_frame(sent: Seq<FrameModel>)
    ensures
        sent.map_values(|frame: FrameModel| to_wire(frame)).map_values(
            |wire: WireModel| from_wire(wire),
        ) == sent,
{
    assert(sent.map_values(|frame: FrameModel| to_wire(frame)).map_values(
        |wire: WireModel| from_wire(wire),
    ) =~= sent) by {
        assert forall|i: int| 0 <= i < sent.len() implies from_wire(to_wire(sent[i])) == sent[i] by {
            crate::frame::wire_carries_every_frame(sent[i]);
        }
    }
}

/// A turn flushes releases first and last. With a window, what was queued is applied before
/// anything runs, and display lists are shipped after everything ran, the redrawing included;
/// the cursor goes out after them. Without one, nothing is applied, redrawn or shipped.
pub proof fn turns_apply_then_run_then_ship(window_open: bool, i: int)
    requires
        0 <= i < turn_steps(window_open).len(),
    ensures
        turn_steps(window_open)[0] is DrainReleases,
        turn_steps(window_open).last() is DrainReleases,
        !window_open ==> !(turn_steps(window_open)[i] is FlushEvents) && !(turn_steps(
            window_open,
        )[i] is PumpFrames) && !(turn_steps(window_open)[i] is ShipScenes),
        window_open ==> turn_steps(window_open).contains(PumpStep::FlushEvents) && turn_steps(
            window_open,
        ).contains(PumpStep::PumpFrames) && turn_steps(window_open).contains(PumpStep::ShipScenes),
        turn_steps(window_open).contains(PumpStep::SetCursor),
        forall|j: int|
            0 <= j < turn_steps(window_open).len() && (#[trigger] turn_steps(window_open)[j])
                is RunUntilIdle ==> {
                &&& turn_steps(window_open)[i] is FlushEvents ==> i < j
                &&& turn_steps(window_open)[i] is ShipScenes ==> j < i
                &&& turn_steps(window_open)[i] is SetCursor ==> j < i
            },
        turn_steps(window_open)[i] is PumpFrames ==> (exists|j: int|
            0 <= j < i && (#[trigger] turn_steps(window_open)[j]) is RunUntilIdle) && (exists|
            j: int,
        |
            i < j < turn_steps(window_open).len() && (#[trigger] turn_steps(window_open)[j])
                is RunUntilIdle),
{
    let steps = turn_steps(window_open);
    if window_open {
        assert(steps[1] is FlushEvents);
        assert(steps[2] is RunUntilIdle);
        assert(steps[3] is PumpFrames);
        assert(steps[4] is RunUntilIdle);
        assert(steps[5] is ShipScenes);
        assert(steps[6] is SetCursor);
    } else {
        assert(steps[3] is SetCursor);
    }
}

/// An event for a view waits behind the events before it, and touches nothing else.
pub proof fn events_wait_in_order(guest: GuestModel, event: SurfaceEvent)
    ensures
        guest.with_event(event).platform.pending_events == guest.platform.pending_events.push(
            event,
        ),
        guest.with_event(event).objects == guest.objects,
        guest.with_event(event).scenes == guest.scenes,
        guest.with_event(event).overlays == guest.overlays,
        guest.with_event(event).platform.views == guest.platform.views,
        guest.with_event(event).platform.windows == guest.platform.windows,
        guest.drained().objects == guest.objects.drained(),
        guest.drained().platform == guest.platform,
        guest.drained().scenes == guest.scenes,
{
}

} // verus!
