//! The host's end of a plugin: its object registry, the requests to the worker that owns
//! the plugin's store, and the pixel path from display lists to surfaces.

use vstd::prelude::*;
use crate::clipboard::{optional_text, Clipboard, ClipboardChanged};
use crate::display_list::{DisplayList, Scene};
use crate::frame::{
    frame_from_wire, frame_models, frame_to_wire, from_wire, to_wire, wire_carries_every_frame,
    Frame, FrameModel, WireFrame, WireModel,
};
use crate::guest::turns_carry_every_frame;
use crate::images::{ingest_images, ingested, RenderImage, RenderImageModel};
use crate::input_query::{InputAnswer, InputQuery};
use crate::limits::{total_image_bytes, DisplayListLimits};
use crate::model::{shared_home, EntityToken, HomeEntity, ObjectsModel, ROOT_ADDRESS};
use crate::registry::{FailedCall, MintError, Objects, Remote};
use crate::table::Table;
use crate::text::{decimal_chars, joined};
use crate::worker::{
    all_frames, lemma_frames_behind, next_step, step_length, wire_models, PluginRequest,
    RequestModel, RequestQueue, StepModel,
};

verus! {

/// The kind of the entities behind the surfaces a host shares.
pub const SURFACE_KIND: u64 = 1;

/// What a plugin's host holds.
#[verifier::ext_equal]
pub struct HostModel {
    pub objects: ObjectsModel,
    /// The requests the worker has not taken yet.
    pub requests: Seq<RequestModel>,
    pub images: Map<u64, RenderImageModel>,
    pub limits: DisplayListLimits,
    /// Why the plugin stopped, once it has.
    pub stopped: Option<Seq<char>>,
    /// After how many milliseconds the guest wants its next turn.
    pub scheduled_tick: Option<u32>,
}

/// What a stopped plugin leaves to be done: the calls that fail, and the surfaces that
/// show the reason.
#[derive(Debug, PartialEq)]
pub struct Stopped {
    pub failed: Vec<FailedCall>,
    pub surfaces: Vec<EntityToken>,
}

/// A display list for a surface.
#[derive(Debug, PartialEq)]
pub struct Draw {
    pub surface: EntityToken,
    pub list: DisplayList,
}

/// What came of a turn's display lists.
#[derive(Debug, PartialEq)]
pub enum Applied {
    /// One was over a cap: nothing is drawn. The plugin stops, if it had not already.
    Stopped(Option<Stopped>),
    /// Each scene and overlay to its surface, in order.
    Drawn { scenes: Vec<Draw>, overlays: Vec<Draw> },
}

/// The tick that carries one frame.
pub open spec fn frame_tick(frame: FrameModel) -> RequestModel {
    RequestModel::Tick(seq![to_wire(frame)])
}

/// The tick that carries nothing.
pub open spec fn empty_tick() -> RequestModel {
    RequestModel::Tick(Seq::empty())
}

/// Why some display lists are refused: for the first that is over a cap.
pub open spec fn refused(limits: DisplayListLimits, scenes: Seq<Scene>) -> Option<Seq<char>>
    decreases scenes.len(),
{
    if scenes.len() == 0 {
        None
    } else if !limits.allows(scenes[0].list) {
        Some(limits.reason(scenes[0].list))
    } else {
        refused(limits, scenes.drop_first())
    }
}

/// Whether the sizes of the images in each list add up without overflow.
pub open spec fn addable(scenes: Seq<Scene>) -> bool {
    forall|i: int|
        0 <= i < scenes.len() ==> total_image_bytes((#[trigger] scenes[i]).list.new_images@)
            <= usize::MAX
}

/// The images known after these lists arrived, in order.
pub open spec fn images_after(
    images: Map<u64, RenderImageModel>,
    scenes: Seq<Scene>,
) -> Map<u64, RenderImageModel>
    decreases scenes.len(),
{
    if scenes.len() == 0 {
        images
    } else {
        ingested(images_after(images, scenes.drop_last()), scenes.last().list.new_images@)
    }
}

impl HostModel {
    /// The state after a request was queued; a stopped plugin takes none.
    pub open spec fn enqueued(self, request: RequestModel) -> HostModel {
        if self.stopped is Some {
            self
        } else {
            HostModel { requests: self.requests.push(request), ..self }
        }
    }

    /// The state after the frames the registry sent were queued, each as a tick of its
    /// own, in order.
    pub open spec fn flushed(self) -> HostModel {
        HostModel {
            objects: ObjectsModel { outbound: Seq::empty(), ..self.objects },
            requests: if self.stopped is Some {
                self.requests
            } else {
                self.requests + self.objects.outbound.map_values(
                    |frame: FrameModel| frame_tick(frame),
                )
            },
            ..self
        }
    }

    /// The display list a scene brings to a surface this host shared, if it is one.
    pub open spec fn drawn(self, scene: Scene, live: Seq<EntityToken>) -> Option<Draw> {
        match self.objects.entity_at(scene.surface, SURFACE_KIND, live) {
            Some(surface) => Some(Draw { surface, list: scene.list }),
            None => None,
        }
    }

    /// The state after the plugin stopped for good; the first reason stays.
    pub open spec fn stopped_for(self, reason: Seq<char>) -> HostModel {
        if self.stopped is Some {
            self
        } else {
            HostModel {
                objects: ObjectsModel { pending_responses: Map::empty(), ..self.objects },
                requests: Seq::empty(),
                stopped: Some(reason),
                scheduled_tick: None,
                ..self
            }
        }
    }
}

/// A plugin's host.
pub struct PluginHost {
    objects: Objects,
    requests: RequestQueue,
    images: Table<RenderImage>,
    limits: DisplayListLimits,
    stopped: Option<String>,
    scheduled_tick: Option<u32>,
}

impl View for PluginHost {
    type V = HostModel;

    closed spec fn view(&self) -> HostModel {
        HostModel {
            objects: self.objects@,
            requests: self.requests@,
            images: self.images@,
            limits: self.limits,
            stopped: optional_text(self.stopped),
            scheduled_tick: self.scheduled_tick,
        }
    }
}

impl PluginHost {
    /// A host whose plugin is yet to be initialized: that is the worker's first request.
    pub fn new(limits: DisplayListLimits) -> (host: PluginHost)
        ensures
            host@ == (HostModel {
                objects: ObjectsModel::initial(),
                requests: seq![RequestModel::Init],
                images: Map::empty(),
                limits,
                stopped: None,
                scheduled_tick: None,
            }),
            host@.objects.wf(),
    {
        let mut requests = RequestQueue::new();
        requests.push(PluginRequest::Init);
        let host = PluginHost {
            objects: Objects::new(),
            requests,
            images: Table::new(),
            limits,
            stopped: None,
            scheduled_tick: None,
        };
        assert(host@.requests =~= seq![RequestModel::Init]);
        host
    }

    fn queue(&mut self, request: PluginRequest)
        ensures
            final(self)@ == old(self)@.enqueued(request@),
    {
        if self.stopped.is_none() {
            self.requests.push(request);
        }
    }

    /// Queue a request for the worker, behind the frames the registry sent before.
    pub fn enqueue(&mut self, request: PluginRequest)
        requires
            old(self)@.objects.wf(),
        ensures
            final(self)@ == old(self)@.flushed().enqueued(request@),
            final(self)@.objects.wf(),
    {
        self.flush_frames();
        self.queue(request);
    }

    /// The requests the worker takes from, with every frame the registry sent among them.
    pub fn requests(&mut self) -> (requests: &mut RequestQueue)
        requires
            old(self)@.objects.wf(),
        ensures
            requests@ == old(self)@.flushed().requests,
            final(self)@ == (HostModel { requests: final(requests)@, ..old(self)@.flushed() }),
            final(self)@.objects.wf(),
    {
        self.flush_frames();
        &mut self.requests
    }

    /// This end's registry, for sharing and connecting from anywhere.
    pub fn registry(&mut self) -> (objects: &mut Objects)
        ensures
            objects@ == old(self)@.objects,
            final(self)@ == (HostModel { objects: final(objects)@, ..old(self)@ }),
    {
        &mut self.objects
    }

    /// Install `entity` as this end's root object: the single capability the other end
    /// starts from. Root traffic that arrived first comes back, to be delivered now, in
    /// order.
    pub fn share_root(
        &mut self,
        interface: &str,
        handler: u64,
        entity: EntityToken,
        keep_alive: bool,
    ) -> (queued: Vec<Frame>)
        requires
            old(self)@.objects.wf(),
        ensures
            final(self)@ == (HostModel {
                objects: ObjectsModel {
                    pending_root_frames: Seq::empty(),
                    ..old(self)@.objects.installed(
                        ROOT_ADDRESS,
                        shared_home(interface@, handler, entity, keep_alive),
                    )
                },
                ..old(self)@
            }),
            frame_models(queued@) == old(self)@.objects.pending_root_frames,
            final(self)@.objects.wf(),
    {
        self.objects.share_root(interface, handler, entity, keep_alive)
    }

    /// Share a local entity under an id minted for it.
    pub fn share(
        &mut self,
        interface: &str,
        handler: u64,
        entity: EntityToken,
        keep_alive: bool,
    ) -> (id: Result<u64, MintError>)
        requires
            old(self)@.objects.wf(),
        ensures
            match id {
                Ok(id) => old(self)@.objects.mintable(id) && final(self)@ == (HostModel {
                    objects: old(self)@.objects.installed(
                        id,
                        shared_home(interface@, handler, entity, keep_alive),
                    ),
                    ..old(self)@
                }),
                Err(_) => final(self)@ == old(self)@,
            },
            final(self)@.objects.wf(),
    {
        self.objects.share(interface, handler, entity, keep_alive)
    }

    /// [`PluginHost::share`] of an entity with a dispatch table of its own.
    pub fn share_with(
        &mut self,
        interface: &str,
        handler: u64,
        entity: EntityToken,
    ) -> (id: Result<u64, MintError>)
        requires
            old(self)@.objects.wf(),
        ensures
            match id {
                Ok(id) => old(self)@.objects.mintable(id) && final(self)@ == (HostModel {
                    objects: old(self)@.objects.installed(
                        id,
                        shared_home(interface@, handler, entity, true),
                    ),
                    ..old(self)@
                }),
                Err(_) => final(self)@ == old(self)@,
            },
            final(self)@.objects.wf(),
    {
        self.objects.share_with(interface, handler, entity)
    }

    /// Attach to the other end's root object: the capability everything starts from.
    pub fn root(&mut self, interface: &str) -> (remote: Remote)
        requires
            old(self)@.objects.wf(),
            old(self)@.objects.projections.contains_key(ROOT_ADDRESS)
                ==> old(self)@.objects.projections[ROOT_ADDRESS].handles < u64::MAX,
        ensures
            remote.spec_id() == ROOT_ADDRESS,
            final(self)@ == (HostModel {
                objects: old(self)@.objects.connected(ROOT_ADDRESS, interface@),
                ..old(self)@
            }),
            final(self)@.objects.wf(),
    {
        self.objects.root(interface)
    }

    /// Queue the frames the registry sent, each as a tick of its own, in order.
    pub fn flush_frames(&mut self)
        requires
            old(self)@.objects.wf(),
        ensures
            final(self)@ == old(self)@.flushed(),
            final(self)@.objects.wf(),
    {
        let ghost start = self@;
        let frames = self.objects.take_outbound();
        let ghost each = |frame: FrameModel| frame_tick(frame);
        let ghost sent = frame_models(frames@);
        assert(frames@.take(0) =~= Seq::empty());
        assert(sent.take(0).map_values(each) =~= Seq::empty());
        assert(self@.requests + Seq::<RequestModel>::empty() =~= self@.requests);
        for frame in it: frames
            invariant
                it.seq() == frames@,
                sent == frame_models(frames@),
                each == (|frame: FrameModel| frame_tick(frame)),
                self@ == (HostModel {
                    objects: ObjectsModel { outbound: Seq::empty(), ..start.objects },
                    requests: if start.stopped is Some {
                        start.requests
                    } else {
                        start.requests + sent.take(it.index() as int).map_values(each)
                    },
                    ..start
                }),
        {
            let ghost index = it.index() as int;
            assert(frame@ == sent[index]);
            let wire = frame_to_wire(frame);
            let mut tick: Vec<WireFrame> = Vec::new();
            tick.push(wire);
            assert(wire_models(tick@) =~= seq![to_wire(sent[index])]);
            self.queue(PluginRequest::Tick(tick));
            assert(sent.take(index + 1).map_values(each) =~= sent.take(index).map_values(each).push(
                frame_tick(sent[index]),
            ));
            assert((start.requests + sent.take(index).map_values(each)).push(
                frame_tick(sent[index]),
            ) =~= start.requests + sent.take(index + 1).map_values(each));
        }
        assert(sent.take(sent.len() as int) =~= sent);
    }

    /// Flush deferred work (queued capability releases) and give the guest a turn. Hosts
    /// with quiescent plugins call this to make drops observable.
    pub fn pump(&mut self)
        requires
            old(self)@.objects.wf(),
        ensures
            ({
                let drained = HostModel {
                    objects: ObjectsModel {
                        releases: Seq::empty(),
                        ..old(self)@.objects
                    }.released_all(old(self)@.objects.releases),
                    ..old(self)@
                };
                final(self)@ == drained.flushed().enqueued(empty_tick())
            }),
            final(self)@.objects.wf(),
    {
        self.objects.drain_releases();
        let nothing: Vec<WireFrame> = Vec::new();
        assert(wire_models(nothing@) =~= Seq::empty());
        self.enqueue(PluginRequest::Tick(nothing));
    }

    /// Why the plugin stopped, if it has.
    pub fn stopped(&self) -> (reason: Option<&String>)
        ensures
            match reason {
                Some(reason) => self@.stopped == Some(reason@),
                None => self@.stopped is None,
            },
    {
        self.stopped.as_ref()
    }

    /// The plugin is done for good: a trap, a budget, a limit. In-flight calls fail, its
    /// surfaces show the reason, and it takes no further requests. Stopping again does
    /// nothing. `live` lists the entities something else keeps alive.
    pub fn stop(&mut self, reason: &str, live: &Vec<EntityToken>) -> (stopped: Option<Stopped>)
        requires
            old(self)@.objects.wf(),
        ensures
            final(self)@ == old(self)@.stopped_for(reason@),
            match stopped {
                None => old(self)@.stopped is Some,
                Some(stopped) => {
                    &&& old(self)@.stopped is None
                    &&& stopped_fits(old(self)@.objects, reason@, live@, stopped)
                },
            },
            final(self)@.objects.wf(),
    {
        if self.stopped.is_some() {
            return None;
        }
        let surfaces = self.objects.local_entities(SURFACE_KIND, live);
        let failed = self.objects.fail_pending(reason);
        self.stopped = Some(reason.to_owned());
        self.scheduled_tick = None;
        self.requests = RequestQueue::new();
        Some(Stopped { failed, surfaces })
    }

    /// Schedule the next turn where the guest asked for one; otherwise what was scheduled
    /// stays.
    pub fn schedule_wake(&mut self, wake_after_ms: Option<u32>)
        ensures
            final(self)@ == (HostModel {
                scheduled_tick: if wake_after_ms is Some {
                    wake_after_ms
                } else {
                    old(self)@.scheduled_tick
                },
                ..old(self)@
            }),
    {
        if wake_after_ms.is_some() {
            self.scheduled_tick = wake_after_ms;
        }
    }

    /// A scheduled turn is due.
    pub fn wake(&mut self)
        requires
            old(self)@.objects.wf(),
        ensures
            final(self)@ == old(self)@.flushed().enqueued(empty_tick()),
            final(self)@.objects.wf(),
    {
        let nothing: Vec<WireFrame> = Vec::new();
        assert(wire_models(nothing@) =~= Seq::empty());
        self.enqueue(PluginRequest::Tick(nothing));
    }

    /// Queue a query without waiting, behind the frames the registry sent before; the
    /// guest is ticked right after, so whatever the query changed gets rendered. The answer
    /// comes under `reply`. A stopped plugin answers nothing.
    pub fn send_query(&mut self, view: u64, query: InputQuery, reply: u64)
        requires
            old(self)@.objects.wf(),
        ensures
            final(self)@ == old(self)@.flushed().enqueued(
                RequestModel::Query { view, query, reply },
            ).enqueued(empty_tick()),
            final(self)@.objects.wf(),
    {
        self.enqueue(PluginRequest::Query { view, query, reply });
        assert(self@.flushed() =~= self@);
        self.wake();
    }

    fn check_lists(&self, scenes: &Vec<Scene>) -> (checked: Result<(), String>)
        requires
            addable(scenes@),
        ensures
            match checked {
                Ok(_) => refused(self@.limits, scenes@) is None,
                Err(reason) => refused(self@.limits, scenes@) == Some(reason@),
            },
    {
        let mut i: usize = 0;
        assert(scenes@.skip(0) =~= scenes@);
        while i < scenes.len()
            invariant
                i <= scenes.len(),
                addable(scenes@),
                refused(self@.limits, scenes@) == refused(self@.limits, scenes@.skip(i as int)),
            decreases scenes.len() - i,
        {
            assert(scenes@.skip(i as int)[0] == scenes@[i as int]);
            assert(scenes@.skip(i as int).drop_first() =~= scenes@.skip(i as int + 1));
            if let Err(reason) = self.limits.check(&scenes[i].list) {
                return Err(reason);
            }
            i += 1;
        }
        assert(scenes@.skip(i as int).len() == 0);
        Ok(())
    }

    fn route(&mut self, scenes: Vec<Scene>, live: &Vec<EntityToken>) -> (draws: Vec<Draw>)
        ensures
            final(self)@ == (HostModel {
                images: images_after(old(self)@.images, scenes@),
                ..old(self)@
            }),
            draws@ == scenes@.filter_map(|scene: Scene| old(self)@.drawn(scene, live@)),
    {
        let ghost start = self@;
        let ghost each = |scene: Scene| start.drawn(scene, live@);
        let mut draws: Vec<Draw> = Vec::new();
        assert(scenes@.take(0) =~= Seq::<Scene>::empty());
        for scene in it: scenes
            invariant
                it.seq() == scenes@,
                each == (|scene: Scene| start.drawn(scene, live@)),
                self@ == (HostModel {
                    images: images_after(start.images, scenes@.take(it.index() as int)),
                    ..start
                }),
                draws@ == scenes@.take(it.index() as int).filter_map(each),
        {
            let ghost index = it.index() as int;
            assert(scene == scenes@[index]);
            assert(scenes@.take(index + 1).drop_last() =~= scenes@.take(index));
            ingest_images(&mut self.images, &scene.list);
            if let Some(surface) = self.objects.local_entity(scene.surface, SURFACE_KIND, live) {
                draws.push(Draw { surface, list: scene.list });
            }
            assert(draws@ =~= scenes@.take(index + 1).filter_map(each));
        }
        assert(scenes@.take(scenes@.len() as int) =~= scenes@);
        draws
    }

    /// Route freshly rendered display lists to the surfaces they address. A scene names
    /// its surface by object id; the surface must be one this host shared, so a guest can
    /// only draw where it was handed a ref. One list over a cap stops the plugin, and
    /// nothing of the turn is drawn.
    pub fn apply_scenes(
        &mut self,
        scenes: Vec<Scene>,
        overlays: Vec<Scene>,
        live: &Vec<EntityToken>,
    ) -> (applied: Applied)
        requires
            old(self)@.objects.wf(),
            addable(scenes@),
            addable(overlays@),
        ensures
            final(self)@.objects.wf(),
            ({
                let verdict = match refused(old(self)@.limits, scenes@) {
                    Some(reason) => Some(reason),
                    None => refused(old(self)@.limits, overlays@),
                };
                match (verdict, applied) {
                    (Some(reason), Applied::Stopped(stopped)) => {
                        let reason = "plugin stopped: "@ + reason;
                        &&& final(self)@ == old(self)@.stopped_for(reason)
                        &&& stopped is None <==> old(self)@.stopped is Some
                        &&& stopped matches Some(stopped) ==> stopped_fits(
                            old(self)@.objects,
                            reason,
                            live@,
                            stopped,
                        )
                    },
                    (None, Applied::Drawn { scenes: drawn, overlays: drawn_over }) => {
                        &&& final(self)@ == (HostModel {
                            images: images_after(
                                images_after(old(self)@.images, scenes@),
                                overlays@,
                            ),
                            ..old(self)@
                        })
                        &&& drawn@ == scenes@.filter_map(
                            |scene: Scene| old(self)@.drawn(scene, live@),
                        )
                        &&& drawn_over@ == overlays@.filter_map(
                            |scene: Scene| old(self)@.drawn(scene, live@),
                        )
                    },
                    _ => false,
                }
            }),
    {
        let checked = match self.check_lists(&scenes) {
            Ok(_) => self.check_lists(&overlays),
            Err(reason) => Err(reason),
        };
        if let Err(reason) = checked {
            let reason = joined("plugin stopped: ", reason.as_str());
            return Applied::Stopped(self.stop(reason.as_str(), live));
        }
        let drawn = self.route(scenes, live);
        let ghost between = self@;
        let drawn_over = self.route(overlays, live);
        proof {
            let first = |scene: Scene| old(self)@.drawn(scene, live@);
            let second = |scene: Scene| between.drawn(scene, live@);
            assert(first =~= second);
        }
        Applied::Drawn { scenes: drawn, overlays: drawn_over }
    }
}

/// The frames of a turn, as the registry is handed them, one after the other.
pub fn turn_inbound(wire: Vec<WireFrame>) -> (frames: Vec<Frame>)
    ensures
        frame_models(frames@) == wire_models(wire@).map_values(|wire: WireModel| from_wire(wire)),
{
    let ghost each = |wire: WireModel| from_wire(wire);
    let ghost sent = wire_models(wire@);
    let mut frames: Vec<Frame> = Vec::new();
    assert(frame_models(frames@) =~= sent.take(0).map_values(each));
    for record in it: wire
        invariant
            it.seq() == wire@,
            sent == wire_models(wire@),
            each == (|wire: WireModel| from_wire(wire)),
            frame_models(frames@) == sent.take(it.index() as int).map_values(each),
    {
        let ghost index = it.index() as int;
        let ghost before = frame_models(frames@);
        assert(record@ == sent[index]);
        frames.push(frame_from_wire(record));
        assert(frame_models(frames@) =~= before.push(from_wire(sent[index])));
        assert(frame_models(frames@) =~= sent.take(index + 1).map_values(each));
    }
    assert(sent.take(sent.len() as int) =~= sent);
    frames
}

/// Whether `stopped` lists just the calls that were waiting, failing with the reason, and
/// just the live surfaces.
pub open spec fn stopped_fits(
    objects: ObjectsModel,
    reason: Seq<char>,
    live: Seq<EntityToken>,
    stopped: Stopped,
) -> bool {
    &&& forall|i: int|
        0 <= i < stopped.failed@.len() ==> objects.pending_responses.contains_key(
            (#[trigger] stopped.failed@[i]).request,
        ) && objects.pending_responses[stopped.failed@[i].request] == stopped.failed@[i].receipt
            && stopped.failed@[i].error@ == reason
    &&& forall|i: int, j: int|
        0 <= i < stopped.failed@.len() && 0 <= j < stopped.failed@.len() && i != j ==> (
        #[trigger] stopped.failed@[i]).request != (#[trigger] stopped.failed@[j]).request
    &&& forall|request: u64|
        #![trigger objects.pending_responses.contains_key(request)]
        objects.pending_responses.contains_key(request) ==> exists|i: int|
            0 <= i < stopped.failed@.len() && (#[trigger] stopped.failed@[i]).request == request
    &&& exists|ids: Seq<u64>| #[trigger]
        objects.lists_entities(ids, SURFACE_KIND, live) && stopped.surfaces@ == ids.map_values(
            |id: u64| objects.entity_at(id, SURFACE_KIND, live)->0,
        )
}

/// The answer to a query, arriving on the worker's schedule.
#[derive(Debug)]
pub struct PendingAnswer {
    reply: u64,
    arrived: Option<Result<InputAnswer, String>>,
}

/// The answer in what came back, if it is one.
pub open spec fn unwrapped(result: Option<Result<InputAnswer, String>>) -> Option<InputAnswer> {
    match result {
        Some(Ok(answer)) => Some(answer),
        _ => None,
    }
}

impl PendingAnswer {
    /// The number the answer comes under.
    pub closed spec fn spec_reply(&self) -> u64 {
        self.reply
    }

    /// What has arrived and was not taken.
    pub closed spec fn spec_arrived(&self) -> Option<Result<InputAnswer, String>> {
        self.arrived
    }

    /// An answer to come under `reply`.
    pub fn new(reply: u64) -> (pending: PendingAnswer)
        ensures
            pending.spec_reply() == reply,
            pending.spec_arrived() is None,
    {
        PendingAnswer { reply, arrived: None }
    }

    /// The number the answer comes under.
    pub fn reply(&self) -> (reply: u64)
        ensures
            reply == self.spec_reply(),
    {
        self.reply
    }

    /// The worker answered. There is room for one answer; a further one is dropped.
    pub fn arrive(&mut self, answer: Result<InputAnswer, String>)
        ensures
            final(self).spec_reply() == old(self).spec_reply(),
            final(self).spec_arrived() == (if old(self).spec_arrived() is Some {
                old(self).spec_arrived()
            } else {
                Some(answer)
            }),
    {
        if self.arrived.is_none() {
            self.arrived = Some(answer);
        }
    }

    /// The answer, if it has arrived.
    pub fn try_take(&mut self) -> (answer: Option<InputAnswer>)
        ensures
            answer == unwrapped(old(self).spec_arrived()),
            final(self).spec_arrived() is None,
            final(self).spec_reply() == old(self).spec_reply(),
    {
        let mut arrived: Option<Result<InputAnswer, String>> = None;
        core::mem::swap(&mut arrived, &mut self.arrived);
        PendingAnswer::unwrap(arrived)
    }

    /// What waiting brought, within the time there was: a failed query counts as
    /// unanswered.
    pub fn unwrap(result: Option<Result<InputAnswer, String>>) -> (answer: Option<InputAnswer>)
        ensures
            answer == unwrapped(result),
    {
        match result {
            Some(Ok(answer)) => Some(answer),
            Some(Err(_)) => None,
            None => None,
        }
    }
}

/// The host's synchronous channel into a plugin: the one place the UI thread asks the
/// guest and waits, at most this many nanoseconds.
#[derive(Clone, Copy, Debug, PartialEq, Eq, Structural)]
pub struct InputQueries {
    pub timeout_ns: u128,
}

impl InputQueries {
    /// Queue a query without waiting.
    pub fn send(&self, host: &mut PluginHost, view: u64, query: InputQuery, reply: u64) -> (pending:
        PendingAnswer)
        requires
            old(host)@.objects.wf(),
        ensures
            pending.spec_reply() == reply,
            pending.spec_arrived() is None,
            final(host)@ == old(host)@.flushed().enqueued(
                RequestModel::Query { view, query, reply },
            ).enqueued(empty_tick()),
            final(host)@.objects.wf(),
    {
        host.send_query(view, query, reply);
        PendingAnswer::new(reply)
    }

    /// Let the host's clipboard object, if it is still there, look at the clipboard again,
    /// ahead of a keystroke that may paste. It holds `text` now.
    pub fn refresh_clipboard(&self, clipboard: &mut Option<Clipboard>, text: Option<String>) -> (
        event: Option<ClipboardChanged>)
        ensures
            match (*old(clipboard), *final(clipboard)) {
                (Some(before), Some(after)) => after@ == optional_text(text) && (event is Some
                    <==> before@ != optional_text(text)) && (event matches Some(event)
                    ==> optional_text(event.text) == optional_text(text)),
                (None, None) => event is None,
                _ => false,
            },
    {
        let mut taken: Option<Clipboard> = None;
        core::mem::swap(&mut taken, clipboard);
        match taken {
            Some(mut object) => {
                let event = object.refresh(text);
                *clipboard = Some(object);
                event
            },
            None => None,
        }
    }
}

/// One thing done to a plugin's host.
pub enum HostOperation {
    /// Something was done to its registry, which is this one now.
    Registry(ObjectsModel),
    FlushFrames,
    /// A request was queued, behind the frames the registry sent before.
    Enqueue(RequestModel),
    /// The worker took so many requests.
    TakeRequests(nat),
    /// Display lists arrived; these are the images known now.
    ApplyScenes(Map<u64, RenderImageModel>),
    ScheduleWake(Option<u32>),
    Stop(Seq<char>),
}

impl HostModel {
    /// The state after something was done.
    pub open spec fn operated(self, operation: HostOperation) -> HostModel {
        match operation {
            HostOperation::Registry(objects) => HostModel { objects, ..self },
            HostOperation::FlushFrames => self.flushed(),
            HostOperation::Enqueue(request) => self.flushed().enqueued(request),
            HostOperation::TakeRequests(count) => HostModel {
                requests: self.flushed().requests.skip(
                    if count <= self.flushed().requests.len() {
                        count as int
                    } else {
                        self.flushed().requests.len() as int
                    },
                ),
                ..self.flushed()
            },
            HostOperation::ApplyScenes(images) => HostModel { images, ..self },
            HostOperation::ScheduleWake(after) => HostModel {
                scheduled_tick: if after is Some {
                    after
                } else {
                    self.scheduled_tick
                },
                ..self
            },
            HostOperation::Stop(reason) => self.stopped_for(reason),
        }
    }

    /// The state after a run of operations, in order.
    pub open spec fn operated_all(self, run: Seq<HostOperation>) -> HostModel
        decreases run.len(),
    {
        if run.len() == 0 {
            self
        } else {
            self.operated_all(run.drop_last()).operated(run.last())
        }
    }
}

/// A plugin stops once: the calls that wait for it are given up, and whatever is done after,
/// the first reason stays, and nothing more is asked of it.
pub proof fn stopping_is_final(host: HostModel, reason: Seq<char>, run: Seq<HostOperation>)
    requires
        host.stopped is None,
    ensures
        host.stopped_for(reason).objects.pending_responses.dom() =~= Set::empty(),
        ({
            let after = host.stopped_for(reason).operated_all(run);
            &&& after.stopped == Some(reason)
            &&& after.requests.len() == 0
            &&& next_step(after.flushed().requests) is None
        }),
    decreases run.len(),
{
    if run.len() > 0 {
        stopping_is_final(host, reason, run.drop_last());
    }
}

proof fn lemma_ticks_carry_frames(frames: Seq<FrameModel>)
    ensures
        all_frames(frames.map_values(|frame: FrameModel| frame_tick(frame))) == frames.map_values(
            |frame: FrameModel| to_wire(frame),
        ),
    decreases frames.len(),
{
    let ticks = frames.map_values(|frame: FrameModel| frame_tick(frame));
    let wire = frames.map_values(|frame: FrameModel| to_wire(frame));
    if frames.len() == 0 {
        assert(all_frames(ticks) =~= wire);
    } else {
        let rest = frames.drop_first();
        lemma_ticks_carry_frames(rest);
        assert(ticks.drop_first() =~= rest.map_values(|frame: FrameModel| frame_tick(frame)));
        assert(wire =~= seq![to_wire(frames[0])] + rest.map_values(
            |frame: FrameModel| to_wire(frame),
        ));
        assert(all_frames(ticks) =~= wire);
    }
}

/// What the host's registry sends is what the guest's is handed, in order and behind what
/// was sent before: the worker's steps deliver just these frames.
pub proof fn frames_reach_the_guest_in_order(host: HostModel)
    requires
        host.stopped is None,
    ensures
        all_frames(host.flushed().requests) == all_frames(host.requests)
            + host.objects.outbound.map_values(|frame: FrameModel| to_wire(frame)),
        host.objects.outbound.map_values(|frame: FrameModel| to_wire(frame)).map_values(
            |wire: WireModel| from_wire(wire),
        ) == host.objects.outbound,
{
    let sent = host.objects.outbound;
    lemma_frames_behind(
        host.requests,
        sent.map_values(|frame: FrameModel| frame_tick(frame)),
    );
    lemma_ticks_carry_frames(sent);
    turns_carry_every_frame(sent);
}

/// A question never overtakes a frame: everything the registry sent before it was asked
/// reaches the guest before it.
pub proof fn questions_follow_the_frames_before_them(
    host: HostModel,
    view: u64,
    query: InputQuery,
    reply: u64,
)
    requires
        host.stopped is None,
    ensures
        ({
            let asked = host.flushed().enqueued(RequestModel::Query { view, query, reply });
            let at = asked.requests.len() - 1;
            &&& asked.requests[at] == (RequestModel::Query { view, query, reply })
            &&& all_frames(asked.requests.take(at)) == all_frames(host.requests)
                + host.objects.outbound.map_values(|frame: FrameModel| to_wire(frame))
        }),
{
    let asked = host.flushed().enqueued(RequestModel::Query { view, query, reply });
    frames_reach_the_guest_in_order(host);
    assert(asked.requests.take(asked.requests.len() - 1) =~= host.flushed().requests);
}

/// The guest is initialized before anything else is asked of it, whatever was queued
/// meanwhile.
pub proof fn initialization_comes_first(later: Seq<RequestModel>)
    ensures
        next_step(seq![RequestModel::Init] + later) == Some(StepModel::Init),
        step_length(seq![RequestModel::Init] + later) == 1,
{
}

impl ObjectsModel {
    /// The state after some turns were applied, in order: the frames of each, in order.
    pub open spec fn turns_applied(self, turns: Seq<Seq<FrameModel>>) -> ObjectsModel
        decreases turns.len(),
    {
        if turns.len() == 0 {
            self
        } else {
            self.turns_applied(turns.drop_last()).delivered_all(turns.last())
        }
    }
}

/// All frames of some turns, in order.
pub open spec fn turn_frames(turns: Seq<Seq<FrameModel>>) -> Seq<FrameModel>
    decreases turns.len(),
{
    if turns.len() == 0 {
        Seq::empty()
    } else {
        turn_frames(turns.drop_last()) + turns.last()
    }
}

/// The frames of the turns reach the registry in the order the turns ran: applying turn by
/// turn is applying all their frames, one after the other.
pub proof fn turns_are_applied_in_order(end: ObjectsModel, turns: Seq<Seq<FrameModel>>)
    ensures
        end.turns_applied(turns) == end.delivered_all(turn_frames(turns)),
    decreases turns.len(),
{
    if turns.len() > 0 {
        turns_are_applied_in_order(end, turns.drop_last());
        lemma_delivered_behind(end, turn_frames(turns.drop_last()), turns.last());
    }
}

proof fn lemma_delivered_behind(end: ObjectsModel, first: Seq<FrameModel>, second: Seq<FrameModel>)
    ensures
        end.delivered_all(first + second) == end.delivered_all(first).delivered_all(second),
    decreases second.len(),
{
    if second.len() == 0 {
        assert(first + second =~= first);
    } else {
        lemma_delivered_behind(end, first, second.drop_last());
        assert((first + second).drop_last() =~= first + second.drop_last());
        assert((first + second).last() == second.last());
    }
}

/// A guest draws only where it was handed a ref: a scene for anything but a surface this
/// host shared is drawn nowhere.
pub proof fn scenes_reach_shared_surfaces_only(
    host: HostModel,
    scene: Scene,
    live: Seq<EntityToken>,
)
    ensures
        host.drawn(scene, live) is Some ==> host.objects.homes.contains_key(scene.surface) && (
        host.drawn(scene, live)->0).surface.kind == SURFACE_KIND,
{
}

/// A scene is drawn, with the list it brought, on the live surface its ref names, and
/// nowhere where the ref names none.
pub proof fn scenes_are_drawn_as_they_came(
    host: HostModel,
    scene: Scene,
    live: Seq<EntityToken>,
    surface: EntityToken,
)
    requires
        host.objects.homes.contains_key(scene.surface),
    ensures
        host.objects.homes[scene.surface].entity == HomeEntity::Strong(surface) && surface.kind
            == SURFACE_KIND ==> host.drawn(scene, live) == Some(
            Draw { surface, list: scene.list },
        ),
        host.objects.homes[scene.surface].entity == HomeEntity::Weak(surface) && surface.kind
            == SURFACE_KIND && live.contains(surface) ==> host.drawn(scene, live) == Some(
            Draw { surface, list: scene.list },
        ),
        host.objects.homes[scene.surface].entity == HomeEntity::Weak(surface) && !live.contains(
            surface,
        ) ==> host.drawn(scene, live) is None,
        host.objects.homes[scene.surface].entity is Absent ==> host.drawn(scene, live) is None,
        host.drawn(scene, live) matches Some(draw) ==> draw.list == scene.list,
{
}

/// Lists are refused just where one is over a cap, and the reason is told of the first that
/// is.
pub proof fn the_first_list_over_a_cap_is_told(
    limits: DisplayListLimits,
    scenes: Seq<Scene>,
    first: int,
)
    requires
        0 <= first <= scenes.len(),
        forall|i: int|
            0 <= i < first ==> (#[trigger] scenes[i]).list.primitives@.len()
                <= limits.max_primitives && total_image_bytes(scenes[i].list.new_images@)
                <= limits.max_image_bytes,
    ensures
        first == scenes.len() ==> refused(limits, scenes) is None,
        first < scenes.len() && scenes[first].list.primitives@.len() > limits.max_primitives
            ==> refused(limits, scenes) == Some(
            "display list has "@ + decimal_chars(scenes[first].list.primitives@.len())
                + " primitives, more than the "@ + decimal_chars(limits.max_primitives as nat)
                + " allowed"@,
        ),
        first < scenes.len() && scenes[first].list.primitives@.len() <= limits.max_primitives
            && total_image_bytes(scenes[first].list.new_images@) > limits.max_image_bytes
            ==> refused(limits, scenes) == Some(
            "display list ships "@ + decimal_chars(
                total_image_bytes(scenes[first].list.new_images@),
            ) + " bytes of images, more than the "@ + decimal_chars(limits.max_image_bytes as nat)
                + " allowed"@,
        ),
    decreases scenes.len(),
{
    if first > 0 {
        let rest = scenes.drop_first();
        assert(limits.allows(scenes[0].list));
        assert forall|i: int| 0 <= i < first - 1 implies (#[trigger] rest[i]).list.primitives@.len()
            <= limits.max_primitives && total_image_bytes(rest[i].list.new_images@)
            <= limits.max_image_bytes by {
            assert(rest[i] == scenes[i + 1]);
        }
        the_first_list_over_a_cap_is_told(limits, rest, first - 1);
    }
}

/// A running plugin is asked everything, each request behind the ones before it; a stopped
/// one is asked nothing more.
pub proof fn requests_wait_their_turn(host: HostModel, request: RequestModel)
    ensures
        host.stopped is None ==> {
            let after = host.enqueued(request);
            &&& after.requests.len() == host.requests.len() + 1
            &&& after.requests.last() == request
            &&& after.requests.drop_last() == host.requests
            &&& after.objects == host.objects
            &&& after.images == host.images
        },
        host.stopped is Some ==> host.enqueued(request) == host,
{
    if host.stopped is None {
        assert(host.enqueued(request).requests.drop_last() =~= host.requests);
    }
}

/// Each frame the registry sent is a tick of its own, in order, behind the requests there
/// are, and is carried away once.
pub proof fn each_frame_is_a_tick_of_its_own(host: HostModel, nth: int)
    requires
        host.stopped is None,
        0 <= nth < host.objects.outbound.len(),
    ensures
        ({
            let after = host.flushed();
            &&& after.objects.outbound.len() == 0
            &&& after.requests.len() == host.requests.len() + host.objects.outbound.len()
            &&& after.requests.take(host.requests.len() as int) == host.requests
            &&& after.requests[host.requests.len() + nth] matches RequestModel::Tick(frames)
            &&& frames.len() == 1
            &&& from_wire(frames[0]) == host.objects.outbound[nth]
        }),
{
    let after = host.flushed();
    assert(after.requests.take(host.requests.len() as int) =~= host.requests);
    wire_carries_every_frame(host.objects.outbound[nth]);
}

/// A plugin that stops forgets what it was still to be asked and its next turn, and tells
/// the reason it stopped for; the images and the caps stay.
pub proof fn stopping_tells_the_reason(host: HostModel, reason: Seq<char>)
    requires
        host.stopped is None,
    ensures
        ({
            let after = host.stopped_for(reason);
            &&& after.stopped == Some(reason)
            &&& after.requests.len() == 0
            &&& after.scheduled_tick is None
            &&& after.images == host.images
            &&& after.limits == host.limits
            &&& after.objects.homes == host.objects.homes
            &&& after.objects.projections == host.objects.projections
        }),
{
}

/// The images of every list are kept, list by list in the order the lists came.
pub proof fn images_arrive_list_by_list(
    images: Map<u64, RenderImageModel>,
    scenes: Seq<Scene>,
    scene: Scene,
)
    ensures
        images_after(images, Seq::empty()) == images,
        images_after(images, scenes.push(scene)) == ingested(
            images_after(images, scenes),
            scene.list.new_images@,
        ),
{
    assert(scenes.push(scene).drop_last() =~= scenes);
}

/// When a plugin stops, each call that waits for it fails, once and with the reason, and each
/// live surface is told.
pub proof fn stopped_plugins_fail_their_calls(
    objects: ObjectsModel,
    reason: Seq<char>,
    live: Seq<EntityToken>,
    stopped: Stopped,
    request: u64,
    surface: EntityToken,
)
    requires
        stopped_fits(objects, reason, live, stopped),
    ensures
        objects.pending_responses.contains_key(request) <==> exists|i: int|
            0 <= i < stopped.failed@.len() && (#[trigger] stopped.failed@[i]).request == request,
        forall|i: int|
            0 <= i < stopped.failed@.len() ==> {
                &&& (#[trigger] stopped.failed@[i]).error@ == reason
                &&& objects.pending_responses[stopped.failed@[i].request]
                    == stopped.failed@[i].receipt
            },
        forall|i: int, j: int|
            0 <= i < j < stopped.failed@.len() ==> (#[trigger] stopped.failed@[i]).request != (
            #[trigger] stopped.failed@[j]).request,
        stopped.surfaces@.contains(surface) <==> exists|id: u64| #[trigger]
            objects.homes.contains_key(id) && objects.homes[id].entity.upgraded(live) == Some(
                surface,
            ) && surface.kind == SURFACE_KIND,
{
    let ids = choose|ids: Seq<u64>| #[trigger]
        objects.lists_entities(ids, SURFACE_KIND, live) && stopped.surfaces@ == ids.map_values(
            |id: u64| objects.entity_at(id, SURFACE_KIND, live)->0,
        );
    if stopped.surfaces@.contains(surface) {
        let i = choose|i: int| 0 <= i < stopped.surfaces@.len() && stopped.surfaces@[i] == surface;
        assert(ids.contains(ids[i]));
        assert(objects.homes.contains_key(ids[i]));
    }
    if exists|id: u64| #[trigger]
        objects.homes.contains_key(id) && objects.homes[id].entity.upgraded(live) == Some(surface)
            && surface.kind == SURFACE_KIND {
        let id = choose|id: u64| #[trigger]
            objects.homes.contains_key(id) && objects.homes[id].entity.upgraded(live) == Some(
                surface,
            ) && surface.kind == SURFACE_KIND;
        assert(objects.entity_at(id, SURFACE_KIND, live) is Some);
        assert(ids.contains(id));
        let i = choose|i: int| 0 <= i < ids.len() && ids[i] == id;
        assert(stopped.surfaces@[i] == surface);
    }
}

/// An answer is what came back where that is one; a failure, and nothing, are no answer.
pub proof fn answers_are_what_came_back(answer: InputAnswer, error: String)
    ensures
        unwrapped(Some(Ok(answer))) == Some(answer),
        unwrapped(Some(Err(error))) is None,
        unwrapped(None) is None,
{
}

} // verus!
