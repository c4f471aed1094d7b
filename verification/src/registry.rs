//! The object registry: the entire object model, the same at both ends of the boundary.
//!
//! A registry knows exactly two things: local objects (homes, whose state lives at this
//! end, with this end's root at address 0) and remote objects (projections of the other
//! end's homes). There is no notion of host or guest here. Outgoing frames collect in
//! order in the registry's outbound queue; the boundary carries them away.
//!
//! Ids are random `u64`s, so a ref can only be known, never guessed: holding a ref is the
//! authority. The single reserved value is 0, "your root": an address each end answers
//! with its own root object, never an identity in a payload.
//!
//! Entities, handlers, signals and receipts live outside the registry; it knows them by
//! the numbers the boundary gave them.

use vstd::prelude::*;
use crate::frame::{
    duplicate_outcome, frame_models, outcome_model, Call, Frame, FrameModel, Outcome, Payload,
    Response,
};
use crate::model::{
    awaited, event_call, lemma_filter_absent, notify_event, observer_home, other_than, shared_home,
    DeliveryModel, EntityToken, Handler, HomeEntity, HomeModel, ObjectsModel, ProjectionModel,
    SignalLink, ROOT_ADDRESS,
};
use crate::table::{FrameQueue, Table};
use crate::text::{append_decimal, same_text, with_number};

verus! {

/// A local object: an entity homed on this end, with its one handler. How the handler
/// interprets method names is the object's business.
pub struct HomeEntry {
    interface: String,
    handler: Handler,
    observers: Vec<u64>,
    entity: HomeEntity,
    resubscribe: bool,
}

impl View for HomeEntry {
    type V = HomeModel;

    closed spec fn view(&self) -> HomeModel {
        HomeModel {
            interface: self.interface@,
            handler: self.handler,
            observers: self.observers@,
            entity: self.entity,
            resubscribe: self.resubscribe,
        }
    }
}

/// A remote object: this end's projection of an entity homed on the other end.
pub struct Projection {
    interface: String,
    signal: Option<SignalLink>,
    handles: u64,
}

impl View for Projection {
    type V = ProjectionModel;

    closed spec fn view(&self) -> ProjectionModel {
        ProjectionModel {
            interface: self.interface@,
            signal: self.signal,
            handles: self.handles as nat,
        }
    }
}

/// What remains to be done about a delivered frame.
#[derive(Debug, PartialEq)]
pub enum Delivery {
    /// Nothing.
    Done,
    /// Hand the outcome to the receipt that waits for it.
    Resolve { receipt: u64, outcome: Outcome },
    /// Run the handler on the call, then hand what it returned to
    /// [`Objects::complete`].
    Dispatch { handler: Handler, call: Call },
    /// Deliver these frames now, in order: they waited for an object there will not be.
    Redeliver(Vec<Frame>),
}

impl View for Delivery {
    type V = DeliveryModel;

    open spec fn view(&self) -> DeliveryModel {
        match *self {
            Delivery::Done => DeliveryModel::Done,
            Delivery::Resolve { receipt, outcome } => DeliveryModel::Resolve {
                receipt,
                outcome: outcome_model(outcome),
            },
            Delivery::Dispatch { handler, call } => DeliveryModel::Dispatch { handler, call: call@ },
            Delivery::Redeliver(frames) => DeliveryModel::Redeliver(frame_models(frames@)),
        }
    }
}

/// What an answered promise leaves to be done, in this order: forward the entity's
/// notifies and events under the new id, then deliver the frames that waited for it.
#[derive(Debug, PartialEq)]
pub struct Resolution {
    /// The promised id that became an object, where its entity has forwarders.
    pub resubscribe: Option<u64>,
    pub queued: Vec<Frame>,
}

/// Why no fresh id could be minted.
#[derive(Clone, Copy, Debug, PartialEq, Eq, Structural)]
pub enum MintError {
    /// The system gave no random bytes.
    EntropyUnavailable,
    /// Every candidate was taken.
    Exhausted,
}

impl MintError {
    /// What a caller is told.
    pub open spec fn spec_message(self) -> Seq<char> {
        match self {
            MintError::EntropyUnavailable => "system entropy is unavailable"@,
            MintError::Exhausted => "every object id that was drawn is taken"@,
        }
    }

    /// What a caller is told.
    pub fn message(self) -> (message: String)
        ensures
            message@ == self.spec_message(),
    {
        match self {
            MintError::EntropyUnavailable => "system entropy is unavailable".to_owned(),
            MintError::Exhausted => "every object id that was drawn is taken".to_owned(),
        }
    }
}

/// A declared outside type: why `getrandom` could not produce bytes.
#[verifier::external_type_specification]
#[verifier::external_body]
pub struct ExEntropyError(getrandom::Error);

/// Eight bytes from `getrandom::fill`, read as one little-endian number. Nothing is
/// claimed of the number: it is random.
#[verifier::external_body]
fn random_number() -> (number: Result<u64, getrandom::Error>) {
    let mut bytes = [0u8; 8];
    getrandom::fill(&mut bytes)?;
    Ok(u64::from_le_bytes(bytes))
}

/// One handle on a projection. It comes from a connect or from
/// [`Objects::clone_remote`], and goes back through [`Objects::drop_remote`].
#[derive(Debug)]
pub struct Remote {
    id: u64,
}

impl Remote {
    /// The object this is a handle on.
    pub closed spec fn spec_id(&self) -> u64 {
        self.id
    }

    /// The object this is a handle on.
    pub fn id(&self) -> (id: u64)
        ensures
            id == self.spec_id(),
    {
        self.id
    }
}

/// One end's object registry.
pub struct Objects {
    homes: Table<HomeEntry>,
    projections: Table<Projection>,
    next_request_id: u64,
    pending_responses: Table<u64>,
    pending_promises: Table<FrameQueue>,
    failed_promises: Table<String>,
    pending_root_frames: FrameQueue,
    releases: Vec<u64>,
    outbound: FrameQueue,
    extensions: Table<u64>,
}

impl View for Objects {
    type V = ObjectsModel;

    closed spec fn view(&self) -> ObjectsModel {
        ObjectsModel {
            homes: self.homes@,
            projections: self.projections@,
            next_request_id: self.next_request_id,
            pending_responses: self.pending_responses@,
            pending_promises: self.pending_promises@,
            failed_promises: self.failed_promises@,
            pending_root_frames: self.pending_root_frames@,
            releases: self.releases@,
            outbound: self.outbound@,
            extensions: self.extensions@,
        }
    }
}

impl Objects {
    /// A registry in which nothing has happened yet.
    pub fn new() -> (objects: Objects)
        ensures
            objects@ == ObjectsModel::initial(),
            objects@.wf(),
    {
        Objects {
            homes: Table::new(),
            projections: Table::new(),
            next_request_id: 0,
            pending_responses: Table::new(),
            pending_promises: Table::new(),
            failed_promises: Table::new(),
            pending_root_frames: FrameQueue::new(),
            releases: Vec::new(),
            outbound: FrameQueue::new(),
            extensions: Table::new(),
        }
    }

    fn respond(&mut self, request: Option<u64>, outcome: Outcome)
        ensures
            final(self)@ == old(self)@.responded(request, outcome_model(outcome)),
    {
        if let Some(request) = request {
            self.outbound.push(Frame::Response(Response { request, outcome }));
        }
    }

    /// Answer a call with a failure. An id it promises fails with it, and what waited for
    /// that id is to be delivered now, in order.
    fn refuse(&mut self, request: Option<u64>, promised: Option<u64>, reason: String) -> (delivery:
        Delivery)
        ensures
            final(self)@ == old(self)@.completed(request, awaited(promised), Err(reason@)),
            ({
                let waiting = match awaited(promised) {
                    Some(promised) => old(self)@.promise_queue(promised),
                    None => Seq::empty(),
                };
                delivery@ == (if waiting.len() > 0 {
                    DeliveryModel::Redeliver(waiting)
                } else {
                    DeliveryModel::Done
                })
            }),
    {
        let outcome: Outcome = Err(reason.clone());
        self.respond(request, outcome);
        if let Some(promised) = promised {
            if promised != ROOT_ADDRESS {
                let outcome: Outcome = Err(reason);
                let resolution = self.resolve_promise(promised, &outcome);
                assert(frame_models(resolution.queued@).len() == resolution.queued@.len());
                if resolution.queued.len() > 0 {
                    return Delivery::Redeliver(resolution.queued);
                }
            }
        }
        Delivery::Done
    }

    /// Where a frame addressed to a promised id stands: queued (the promise is pending),
    /// answered with the allocation's failure, or neither (a real object), in which case
    /// the frame comes back.
    fn intercept_promised(&mut self, frame: Frame) -> (passed: Result<Frame, Delivery>)
        ensures
            match passed {
                Err(delivery) => old(self)@.intercepted(frame@) && final(self)@
                    == old(self)@.after_interception(frame@) && delivery@ == old(self)@.delivery(
                    frame@,
                ),
                Ok(same) => !old(self)@.intercepted(frame@) && same@ == frame@ && final(self)@
                    == old(self)@,
            },
    {
        let target = match &frame {
            Frame::Call(call) => call.target,
            Frame::Subscribe { target, .. } => *target,
            Frame::Release { target } => *target,
            Frame::Response(_) => {
                return Ok(frame);
            },
        };
        if self.pending_promises.contains_key(target) {
            self.expect_promise(&frame);
            if let Some(mut queue) = self.pending_promises.remove(target) {
                queue.push(frame);
                self.pending_promises.insert(target, queue);
            }
            assert(self@ =~= old(self)@.after_interception(frame@));
            return Err(Delivery::Done);
        }
        match frame {
            Frame::Release { target } => match self.failed_promises.remove(target) {
                Some(_) => Err(Delivery::Done),
                None => {
                    assert(self.failed_promises@ =~= old(self).failed_promises@);
                    Ok(Frame::Release { target })
                },
            },
            Frame::Call(call) => {
                let reason = match self.failed_promises.get(call.target) {
                    Some(reason) => reason.clone(),
                    None => {
                        return Ok(Frame::Call(call));
                    },
                };
                Err(self.refuse(call.request, call.promised, reason))
            },
            _ => if self.failed_promises.contains_key(target) {
                Err(Delivery::Done)
            } else {
                Ok(frame)
            },
        }
    }

    /// Apply one inbound frame: resolve a response, register or drop an observer, or find
    /// the handler of a call. Frames for a promised object wait until it exists, or are
    /// answered with the reason it never will; frames for a root that is not there yet
    /// wait for it. A call that is refused fails the id it promises.
    pub fn deliver(&mut self, frame: Frame) -> (delivery: Delivery)
        requires
            old(self)@.wf(),
        ensures
            final(self)@ == old(self)@.delivered(frame@),
            delivery@ == old(self)@.delivery(frame@),
            final(self)@.wf(),
    {
        proof {
            old(self)@.lemma_delivered_wf(frame@);
        }
        let frame = match self.intercept_promised(frame) {
            Ok(frame) => frame,
            Err(delivery) => {
                return delivery;
            },
        };
        match frame {
            Frame::Response(response) => self.deliver_response(response),
            Frame::Subscribe { target, observer } => {
                self.add_observer(target, observer);
                Delivery::Done
            },
            Frame::Release { target } => {
                if let Some(mut home) = self.homes.remove(target) {
                    home.entity.release();
                    home.observers.clear();
                    self.homes.insert(target, home);
                } else if target == ROOT_ADDRESS {
                    self.pending_root_frames.push(Frame::Release { target });
                }
                assert(self@.homes =~= old(self)@.delivered(frame@).homes);
                Delivery::Done
            },
            Frame::Call(call) => self.route_call(call),
        }
    }

    /// The receipt waiting on an incoming response, with what it waited for.
    fn deliver_response(&mut self, response: Response) -> (delivery: Delivery)
        ensures
            final(self)@ == (ObjectsModel {
                pending_responses: old(self)@.pending_responses.remove(response.request),
                ..old(self)@
            }),
            delivery@ == (if old(self)@.pending_responses.contains_key(response.request) {
                DeliveryModel::Resolve {
                    receipt: old(self)@.pending_responses[response.request],
                    outcome: outcome_model(response.outcome),
                }
            } else {
                DeliveryModel::Done
            }),
    {
        match self.pending_responses.remove(response.request) {
            Some(receipt) => Delivery::Resolve { receipt, outcome: response.outcome },
            None => Delivery::Done,
        }
    }

    /// Register an observer object of the other end, and answer with an initial notify.
    fn add_observer(&mut self, target: u64, observer: u64)
        ensures
            ({
                let frame = FrameModel::Subscribe { target, observer };
                !old(self)@.intercepted(frame) ==> final(self)@ == old(self)@.delivered(frame)
            }),
    {
        match self.homes.remove(target) {
            Some(mut home) => {
                home.observers.push(observer);
                self.homes.insert(target, home);
                self.outbound.push(
                    Frame::Call(
                        Call {
                            target: observer,
                            request: None,
                            method: "$notify".to_owned(),
                            payload: Payload::empty(),
                            promised: None,
                        },
                    ),
                );
            },
            None => {
                if target == ROOT_ADDRESS {
                    self.pending_root_frames.push(Frame::Subscribe { target, observer });
                }
            },
        }
    }

    /// Find who answers a call, or answer that nobody does.
    fn route_call(&mut self, call: Call) -> (delivery: Delivery)
        ensures
            ({
                let frame = FrameModel::Call(call@);
                !old(self)@.intercepted(frame) ==> final(self)@ == old(self)@.delivered(frame)
                    && delivery@ == old(self)@.delivery(frame)
            }),
    {
        let handler = match self.homes.get(call.target) {
            Some(home) => home.handler,
            None => {
                if call.target == ROOT_ADDRESS {
                    let frame = Frame::Call(call);
                    self.expect_promise(&frame);
                    self.pending_root_frames.push(frame);
                    return Delivery::Done;
                }
                let mut reason = "call to unknown object ".to_owned();
                append_decimal(&mut reason, call.target);
                return self.refuse(call.request, call.promised, reason);
            },
        };
        if let Some(promised) = call.promised {
            self.open_promise(promised);
        }
        Delivery::Dispatch { handler, call }
    }

    /// Let frames for the id a frame promises wait, while the frame itself does.
    fn expect_promise(&mut self, frame: &Frame)
        ensures
            final(self)@ == old(self)@.promise_expected(frame@),
    {
        if let Frame::Call(call) = frame {
            if let Some(promised) = call.promised {
                if promised != ROOT_ADDRESS {
                    self.open_promise(promised);
                }
            }
        }
    }

    /// Let frames for a promised id wait until its object exists.
    fn open_promise(&mut self, promised: u64)
        ensures
            final(self)@ == old(self)@.promise_opened(Some(promised)),
    {
        if !self.pending_promises.contains_key(promised) {
            self.pending_promises.insert(promised, FrameQueue::new());
        }
    }
}

impl Objects {
    /// A handler answered a call: the answer goes out, and a promised id becomes the
    /// object the answer names (or fails with it). What waited for that object comes
    /// back, to be delivered now, in order.
    pub fn complete(
        &mut self,
        request: Option<u64>,
        promised: Option<u64>,
        outcome: Outcome,
    ) -> (resolution: Resolution)
        requires
            old(self)@.wf(),
        ensures
            final(self)@ == old(self)@.completed(request, promised, outcome_model(outcome)),
            frame_models(resolution.queued@) == (match promised {
                Some(promised) => old(self)@.promise_queue(promised),
                None => Seq::empty(),
            }),
            resolution.resubscribe == (match (
                promised,
                old(self)@.promise_result(outcome_model(outcome)),
            ) {
                (Some(_), Ok(actual)) if old(self)@.homes[actual].resubscribe => promised,
                _ => None,
            }),
            final(self)@.wf(),
    {
        let answer = duplicate_outcome(&outcome);
        self.respond(request, answer);
        match promised {
            Some(promised) => self.resolve_promise(promised, &outcome),
            None => {
                let queued: Vec<Frame> = Vec::new();
                assert(frame_models(queued@) =~= Seq::empty());
                Resolution { resubscribe: None, queued }
            },
        }
    }

    /// The allocating call of promise `promised` answered: install the returned object
    /// under the promised id (or remember the failure), and hand back whatever arrived
    /// for it meanwhile.
    fn resolve_promise(&mut self, promised: u64, outcome: &Outcome) -> (resolution: Resolution)
        ensures
            final(self)@ == old(self)@.promise_resolved(promised, outcome_model(*outcome)),
            frame_models(resolution.queued@) == old(self)@.promise_queue(promised),
            resolution.resubscribe == (match old(self)@.promise_result(outcome_model(*outcome)) {
                Ok(actual) if old(self)@.homes[actual].resubscribe => Some(promised),
                _ => None,
            }),
    {
        let queued = match self.pending_promises.remove(promised) {
            Some(mut queue) => queue.take(),
            None => {
                let none: Vec<Frame> = Vec::new();
                assert(frame_models(none@) =~= Seq::empty());
                none
            },
        };
        let mut resubscribe = None;
        match outcome {
            Ok(payload) => {
                if payload.refs.len() == 0 {
                    self.failed_promises.insert(
                        promised,
                        "the call returned no ref to promise".to_owned(),
                    );
                } else {
                    let actual: u64 = payload.refs[0];
                    match self.install_alias(actual, promised) {
                        Some(forwards) => {
                            if forwards {
                                resubscribe = Some(promised);
                            }
                        },
                        None => {
                            self.failed_promises.insert(
                                promised,
                                with_number("promised object ", actual, " is not homed here"),
                            );
                        },
                    }
                }
            },
            Err(error) => {
                self.failed_promises.insert(promised, error.clone());
            },
        }
        Resolution { resubscribe, queued }
    }

    /// Install the object homed at `from` under `to` as well: a second share of the same
    /// entity, with its own observers and lifetime. Tells whether the entity's notifies
    /// and events can be forwarded there; `None` where nothing is homed at `from`.
    fn install_alias(&mut self, from: u64, to: u64) -> (forwards: Option<bool>)
        ensures
            match forwards {
                Some(forwards) => old(self)@.homes.contains_key(from) && forwards
                    == old(self)@.homes[from].resubscribe && final(self)@ == old(self)@.installed(
                    to,
                    HomeModel { observers: Seq::empty(), ..old(self)@.homes[from] },
                ),
                None => !old(self)@.homes.contains_key(from) && final(self)@ == old(self)@,
            },
    {
        let alias = match self.homes.get(from) {
            Some(home) => HomeEntry {
                interface: home.interface.clone(),
                handler: home.handler,
                observers: Vec::new(),
                entity: home.entity,
                resubscribe: home.resubscribe,
            },
            None => {
                return None;
            },
        };
        assert(alias@ =~= HomeModel { observers: Seq::empty(), ..self@.homes[from] });
        let forwards = alias.resubscribe;
        self.homes.insert(to, alias);
        Some(forwards)
    }

    /// Whether `id` is an object homed on this end.
    pub fn is_local(&self, id: u64) -> (local: bool)
        ensures
            local == self@.homes.contains_key(id),
    {
        self.homes.contains_key(id)
    }

    /// Mint a fresh object id: random, nonzero, and unused here.
    pub fn reserve_local_id(&self) -> (id: Result<u64, MintError>)
        ensures
            id matches Ok(id) ==> self@.mintable(id),
    {
        let mut attempts: u64 = u64::MAX;
        while attempts > 0
            decreases attempts,
        {
            let drawn: Option<u64> = match random_number() {
                Ok(number) => Some(number),
                Err(_) => None,
            };
            if let Some(id) = self.minted(drawn) {
                return id;
            }
            attempts -= 1;
        }
        Err(MintError::Exhausted)
    }

    /// What a drawn number comes to: an id, or another draw where it may not be given to a
    /// new object. Where the system gave no number there is no id.
    pub fn minted(&self, drawn: Option<u64>) -> (id: Option<Result<u64, MintError>>)
        ensures
            id == (match drawn {
                Some(number) => if self@.mintable(number) {
                    Some(Ok(number))
                } else {
                    None
                },
                None => Some(Err(MintError::EntropyUnavailable)),
            }),
    {
        match drawn {
            Some(number) => if self.accepts_id(number) {
                Some(Ok(number))
            } else {
                None
            },
            None => Some(Err(MintError::EntropyUnavailable)),
        }
    }

    /// Whether `id` may be given to a new object: it is not the root's, and unused here.
    pub fn accepts_id(&self, id: u64) -> (accepted: bool)
        ensures
            accepted == self@.mintable(id),
    {
        id != ROOT_ADDRESS && !self.homes.contains_key(id) && !self.projections.contains_key(id)
    }

    fn install(
        &mut self,
        id: u64,
        interface: &str,
        handler: u64,
        entity: EntityToken,
        keep_alive: bool,
    )
        ensures
            final(self)@ == old(self)@.installed(
                id,
                shared_home(interface@, handler, entity, keep_alive),
            ),
    {
        let home = HomeEntry {
            interface: interface.to_owned(),
            handler: Handler::Object(handler),
            observers: Vec::new(),
            entity: if keep_alive {
                HomeEntity::Strong(entity)
            } else {
                HomeEntity::Weak(entity)
            },
            resubscribe: true,
        };
        assert(home@ =~= shared_home(interface@, handler, entity, keep_alive));
        self.homes.insert(id, home);
    }

    /// Install `entity` as this end's root object. Root traffic that arrived first was
    /// queued; it comes back, to be delivered now, in order, so the two bootstraps may
    /// race freely.
    pub fn share_root(
        &mut self,
        interface: &str,
        handler: u64,
        entity: EntityToken,
        keep_alive: bool,
    ) -> (queued: Vec<Frame>)
        requires
            old(self)@.wf(),
        ensures
            final(self)@ == (ObjectsModel {
                pending_root_frames: Seq::empty(),
                ..old(self)@.installed(
                    ROOT_ADDRESS,
                    shared_home(interface@, handler, entity, keep_alive),
                )
            }),
            frame_models(queued@) == old(self)@.pending_root_frames,
            final(self)@.wf(),
    {
        self.install(ROOT_ADDRESS, interface, handler, entity, keep_alive);
        self.pending_root_frames.take()
    }

    /// Share a local entity under an id minted for it. It is held alive until the other
    /// end's last remote drops, unless it opted out of `keep_alive`.
    pub fn share(
        &mut self,
        interface: &str,
        handler: u64,
        entity: EntityToken,
        keep_alive: bool,
    ) -> (id: Result<u64, MintError>)
        requires
            old(self)@.wf(),
        ensures
            match id {
                Ok(id) => old(self)@.mintable(id) && final(self)@ == old(self)@.installed(
                    id,
                    shared_home(interface@, handler, entity, keep_alive),
                ),
                Err(_) => final(self)@ == old(self)@,
            },
            final(self)@.wf(),
    {
        let id: u64 = match self.reserve_local_id() {
            Ok(id) => id,
            Err(error) => {
                return Err(error);
            },
        };
        self.share_at(id, interface, handler, entity, keep_alive);
        Ok(id)
    }

    /// Share a local entity under an id that was minted for it.
    pub fn share_at(
        &mut self,
        id: u64,
        interface: &str,
        handler: u64,
        entity: EntityToken,
        keep_alive: bool,
    )
        requires
            old(self)@.wf(),
            old(self)@.mintable(id),
        ensures
            final(self)@ == old(self)@.installed(
                id,
                shared_home(interface@, handler, entity, keep_alive),
            ),
            final(self)@.wf(),
    {
        self.install(id, interface, handler, entity, keep_alive);
    }

    /// [`Objects::share`] of an entity with a dispatch table of its own instead of a
    /// schema interface. It is always held alive.
    pub fn share_with(
        &mut self,
        interface: &str,
        handler: u64,
        entity: EntityToken,
    ) -> (id: Result<u64, MintError>)
        requires
            old(self)@.wf(),
        ensures
            match id {
                Ok(id) => old(self)@.mintable(id) && final(self)@ == old(self)@.installed(
                    id,
                    shared_home(interface@, handler, entity, true),
                ),
                Err(_) => final(self)@ == old(self)@,
            },
            final(self)@.wf(),
    {
        self.share(interface, handler, entity, true)
    }

    /// The entity behind a local object id, if it is of this kind and still alive. `live`
    /// lists the entities something else keeps alive.
    pub fn local_entity(&self, id: u64, kind: u64, live: &Vec<EntityToken>) -> (entity: Option<
        EntityToken,
    >)
        ensures
            entity == self@.entity_at(id, kind, live@),
    {
        match self.homes.get(id) {
            Some(home) => match home.entity.upgrade(live) {
                Some(token) => if token.kind == kind {
                    Some(token)
                } else {
                    None
                },
                None => None,
            },
            None => None,
        }
    }

    /// The entity that answers the calls to a local object, or the reason why none does:
    /// an object outlives its entity.
    pub fn answering_entity(&self, id: u64, live: &Vec<EntityToken>) -> (entity: Result<
        EntityToken,
        String,
    >)
        ensures
            match entity {
                Ok(entity) => self@.answering(id, live@) == Some(entity),
                Err(reason) => self@.answering(id, live@) is None && reason@
                    == "entity dropped"@,
            },
    {
        let entity = match self.homes.get(id) {
            Some(home) => home.entity.upgrade(live),
            None => None,
        };
        match entity {
            Some(entity) => Ok(entity),
            None => Err("entity dropped".to_owned()),
        }
    }

    /// Every live local entity of this kind, once for each id it is homed at.
    pub fn local_entities(&self, kind: u64, live: &Vec<EntityToken>) -> (entities: Vec<EntityToken>)
        ensures
            exists|ids: Seq<u64>| #[trigger]
                self@.lists_entities(ids, kind, live@) && entities@ == ids.map_values(
                    |id: u64| self@.entity_at(id, kind, live@)->0,
                ),
    {
        let homes = self.homes.keys();
        let mut entities: Vec<EntityToken> = Vec::new();
        let ghost mut ids: Seq<u64> = Seq::empty();
        let mut i: usize = 0;
        while i < homes.len()
            invariant
                i <= homes.len(),
                homes@.no_duplicates(),
                forall|id: u64| homes@.contains(id) <==> self.homes@.contains_key(id),
                ids.no_duplicates(),
                forall|id: u64| #[trigger]
                    ids.contains(id) <==> (homes@.take(i as int).contains(id) && self@.entity_at(
                        id,
                        kind,
                        live@,
                    ) is Some),
                entities@ == ids.map_values(|id: u64| self@.entity_at(id, kind, live@)->0),
            decreases homes.len() - i,
        {
            let id: u64 = homes[i];
            let ghost before = ids;
            assert(homes@.take(i as int + 1) =~= homes@.take(i as int).push(id));
            assert(!homes@.take(i as int).contains(id));
            assert(forall|other: u64| #[trigger]
                homes@.take(i as int).push(id).contains(other) <==> homes@.take(i as int).contains(
                    other,
                ) || other == id) by {
                broadcast use vstd::seq_lib::group_seq_properties;

            }
            if let Some(token) = self.local_entity(id, kind, live) {
                entities.push(token);
                proof {
                    assert(forall|other: u64| #[trigger]
                        before.push(id).contains(other) <==> before.contains(other) || other == id)
                        by {
                        broadcast use vstd::seq_lib::group_seq_properties;

                    }
                    assert(!before.contains(id));
                    ids = before.push(id);
                }
            }
            i += 1;
        }
        assert(homes@.take(i as int) =~= homes@);
        assert(self@.lists_entities(ids, kind, live@));
        entities
    }

    /// Whether one more remote of `id` can be counted.
    pub fn can_hold(&self, id: u64) -> (can: bool)
        ensures
            can == (self@.projections.contains_key(id) ==> self@.projections[id].handles
                < u64::MAX),
    {
        match self.projections.get(id) {
            Some(projection) => projection.handles < u64::MAX,
            None => true,
        }
    }

    /// Whether one more request can be numbered.
    pub fn can_request(&self) -> (can: bool)
        ensures
            can == (self@.next_request_id < u64::MAX),
    {
        self.next_request_id < u64::MAX
    }

    /// Attach to an object by id. Connecting the same id twice gives two handles on one
    /// projection; when the last one drops, the home end is told to release the object.
    pub fn connect_id(&mut self, id: u64, interface: &str) -> (remote: Remote)
        requires
            old(self)@.wf(),
            old(self)@.projections.contains_key(id) ==> old(self)@.projections[id].handles
                < u64::MAX,
        ensures
            remote.spec_id() == id,
            final(self)@ == old(self)@.connected(id, interface@),
            final(self)@.wf(),
    {
        proof {
            old(self)@.lemma_connected_wf(id, interface@);
        }
        match self.projections.remove(id) {
            Some(mut projection) => {
                if projection.handles > 0 {
                    projection.handles = projection.handles + 1;
                    self.projections.insert(id, projection);
                    assert(self@.projections =~= old(self)@.connected(id, interface@).projections);
                    return Remote { id };
                }
                // The last remote dropped, and the release was not drained yet: release
                // now, so that the home end sees the new interest as new.
                self.projections.insert(id, projection);
                assert(self@ =~= old(self)@);
                self.unqueue_release(id);
                self.release_id(id);
            },
            None => {
                assert(!self@.releases.contains(id));
                proof {
                    lemma_filter_absent(self@.releases, id);
                }
                assert(self@ =~= old(self)@);
            },
        }
        self.projections.insert(
            id,
            Projection { interface: interface.to_owned(), signal: None, handles: 1 },
        );
        Remote { id }
    }

    /// Attach to the other end's root object. Returns at once; the other end queues root
    /// traffic until its root is installed.
    pub fn root(&mut self, interface: &str) -> (remote: Remote)
        requires
            old(self)@.wf(),
            old(self)@.projections.contains_key(ROOT_ADDRESS)
                ==> old(self)@.projections[ROOT_ADDRESS].handles < u64::MAX,
        ensures
            remote.spec_id() == ROOT_ADDRESS,
            final(self)@ == old(self)@.connected(ROOT_ADDRESS, interface@),
            final(self)@.wf(),
    {
        self.connect_id(ROOT_ADDRESS, interface)
    }

    /// One more handle on the projection `remote` is a handle on.
    pub fn clone_remote(&mut self, remote: &Remote) -> (clone: Remote)
        requires
            old(self)@.wf(),
            old(self)@.projections.contains_key(remote.spec_id()),
            0 < old(self)@.projections[remote.spec_id()].handles < u64::MAX,
        ensures
            clone.spec_id() == remote.spec_id(),
            final(self)@ == old(self)@.with_handles(
                remote.spec_id(),
                old(self)@.projections[remote.spec_id()].handles + 1,
            ),
            final(self)@.wf(),
    {
        let id = remote.id;
        proof {
            old(self)@.lemma_connected_wf(id, Seq::empty());
        }
        if let Some(mut projection) = self.projections.remove(id) {
            projection.handles = projection.handles + 1;
            self.projections.insert(id, projection);
        }
        assert(self@ =~= old(self)@.with_handles(id, old(self)@.projections[id].handles + 1));
        Remote { id }
    }

    /// Give a handle back. Dropping the last one queues a release: the home end drops its
    /// strong handle and events stop flowing once the queue is drained.
    pub fn drop_remote(&mut self, remote: Remote)
        requires
            old(self)@.wf(),
            old(self)@.projections.contains_key(remote.spec_id()),
            0 < old(self)@.projections[remote.spec_id()].handles,
        ensures
            final(self)@ == old(self)@.dropped(remote.spec_id()),
            final(self)@.wf(),
    {
        let id = remote.id;
        proof {
            old(self)@.lemma_dropped_wf(id);
        }
        if let Some(mut projection) = self.projections.remove(id) {
            projection.handles = projection.handles - 1;
            let last = projection.handles == 0;
            self.projections.insert(id, projection);
            if last {
                self.releases.push(id);
            }
        }
        assert(self@ =~= old(self)@.dropped(id));
    }

    fn unqueue_release(&mut self, id: u64)
        ensures
            final(self)@ == (ObjectsModel {
                releases: old(self)@.releases.filter(other_than(id)),
                ..old(self)@
            }),
    {
        let mut kept: Vec<u64> = Vec::new();
        let ghost keep = other_than(id);
        let mut i: usize = 0;
        while i < self.releases.len()
            invariant
                i <= self.releases.len(),
                keep == other_than(id),
                kept@ == self.releases@.take(i as int).filter(keep),
            decreases self.releases.len() - i,
        {
            let pending: u64 = self.releases[i];
            proof {
                assert(self.releases@.take(i as int + 1) =~= self.releases@.take(i as int).push(
                    pending,
                ));
                self.releases@.take(i as int).lemma_filter_push(pending, keep);
            }
            if pending != id {
                kept.push(pending);
            }
            i += 1;
        }
        assert(self.releases@.take(i as int) =~= self.releases@);
        self.releases = kept;
    }

    /// Send `release` for a projection and forget it here, with its hidden observer
    /// object.
    fn release_id(&mut self, id: u64)
        ensures
            final(self)@ == old(self)@.released(id),
    {
        match self.projections.remove(id) {
            Some(projection) => {
                if let Some(link) = projection.signal {
                    let _ = self.homes.remove(link.observer);
                }
                self.outbound.push(Frame::Release { target: id });
            },
            None => {},
        }
        assert(self@ =~= old(self)@.released(id));
    }

    /// Flush queued releases (projections whose last remote dropped) into release frames.
    pub fn drain_releases(&mut self)
        requires
            old(self)@.wf(),
        ensures
            final(self)@ == (ObjectsModel {
                releases: Seq::empty(),
                ..old(self)@
            }).released_all(old(self)@.releases),
            final(self)@.wf(),
    {
        let mut released: Vec<u64> = Vec::new();
        core::mem::swap(&mut released, &mut self.releases);
        let ghost start = self@;
        assert(start =~= (ObjectsModel { releases: Seq::empty(), ..old(self)@ }));
        let mut i: usize = 0;
        assert(released@.take(0) =~= Seq::<u64>::empty());
        while i < released.len()
            invariant
                i <= released.len(),
                self@ == start.released_all(released@.take(i as int)),
            decreases released.len() - i,
        {
            assert(released@.take(i as int + 1).drop_last() =~= released@.take(i as int));
            self.release_id(released[i]);
            i += 1;
        }
        assert(released@.take(i as int) =~= released@);
        proof {
            old(self)@.lemma_drained_wf();
        }
    }

    /// The signal a projection's notifies and events land on. The first demand makes one,
    /// out of the `candidate`: a hidden observer object receives the notifies and events
    /// as ordinary calls, and the home is asked to send them. `None` if the projection is
    /// gone.
    pub fn signal_for(&mut self, id: u64, candidate: u64) -> (signal: Result<
        Option<u64>,
        MintError,
    >)
        requires
            old(self)@.wf(),
        ensures
            match signal {
                Ok(signal) => {
                    &&& signal == (match old(self)@.signal_at(id) {
                        // Gone, or listened to already.
                        Some(known) => known,
                        None => Some(candidate),
                    })
                    &&& old(self)@.observed(id, candidate, final(self)@)
                },
                Err(_) => old(self)@.signal_at(id) is None && final(self)@ == old(self)@,
            },
            final(self)@.wf(),
    {
        match self.projections.get(id) {
            None => {
                return Ok(None);
            },
            Some(projection) => {
                if let Some(link) = projection.signal {
                    return Ok(Some(link.signal));
                }
            },
        }
        let observer: u64 = match self.reserve_local_id() {
            Ok(observer) => observer,
            Err(error) => {
                return Err(error);
            },
        };
        self.listen_at(id, candidate, observer);
        Ok(Some(candidate))
    }

    /// Make `observer`, an id minted for it, the hidden observer object of the projection
    /// of `id`, and ask the home to notify it.
    pub fn listen_at(&mut self, id: u64, signal: u64, observer: u64)
        requires
            old(self)@.wf(),
            old(self)@.projections.contains_key(id),
            old(self)@.projections[id].signal is None,
            old(self)@.mintable(observer),
        ensures
            final(self)@ == old(self)@.listening(id, signal, observer),
            final(self)@.wf(),
    {
        let home = HomeEntry {
            interface: "observer".to_owned(),
            handler: Handler::Observer(signal),
            observers: Vec::new(),
            entity: HomeEntity::Absent,
            resubscribe: false,
        };
        assert(home@ =~= observer_home(signal));
        self.homes.insert(observer, home);
        if let Some(mut projection) = self.projections.remove(id) {
            projection.signal = Some(SignalLink { signal, observer });
            self.projections.insert(id, projection);
        }
        self.outbound.push(Frame::Subscribe { target: id, observer });
        assert(self@ =~= old(self)@.listening(id, signal, observer));
        proof {
            old(self)@.lemma_listening_wf(id, signal, observer);
        }
    }

    /// Send a call to the home behind `id`. With a receipt it carries a fresh request id,
    /// and the response resolves the receipt. A call to a released object is not sent,
    /// and its receipt is dropped.
    pub fn send(
        &mut self,
        id: u64,
        method: &str,
        payload: Payload,
        receipt: Option<u64>,
        promised: Option<u64>,
    ) -> (sent: bool)
        requires
            old(self)@.wf(),
            receipt is Some ==> old(self)@.next_request_id < u64::MAX,
        ensures
            sent == old(self)@.projections.contains_key(id),
            final(self)@ == old(self)@.called(id, method@, payload@, receipt, promised),
            final(self)@.wf(),
    {
        if !self.projections.contains_key(id) {
            return false;
        }
        let request: Option<u64> = match receipt {
            Some(receipt) => {
                self.next_request_id = self.next_request_id + 1;
                let request: u64 = self.next_request_id;
                self.pending_responses.insert(request, receipt);
                Some(request)
            },
            None => None,
        };
        self.outbound.push(
            Frame::Call(
                Call { target: id, request, method: method.to_owned(), payload, promised },
            ),
        );
        assert(self@ =~= old(self)@.called(id, method@, payload@, receipt, promised));
        true
    }

    /// A call whose response is a ref, with the id for that ref minted here and now: the
    /// returned remote addresses the object before the response arrives, and calls
    /// through it queue behind the allocating call. The receipt still resolves with the
    /// actual ref.
    pub fn promise_call(
        &mut self,
        id: u64,
        method: &str,
        payload: Payload,
        receipt: u64,
        interface: &str,
    ) -> (remote: Result<Remote, MintError>)
        requires
            old(self)@.wf(),
            old(self)@.next_request_id < u64::MAX,
        ensures
            match remote {
                Ok(remote) => old(self)@.mintable(remote.spec_id()) && final(self)@
                    == old(self)@.connected(remote.spec_id(), interface@).called(
                    id,
                    method@,
                    payload@,
                    Some(receipt),
                    Some(remote.spec_id()),
                ),
                Err(_) => final(self)@ == old(self)@,
            },
            final(self)@.wf(),
    {
        let promised: u64 = match self.reserve_local_id() {
            Ok(promised) => promised,
            Err(error) => {
                return Err(error);
            },
        };
        Ok(self.promise_at(promised, id, method, payload, receipt, interface))
    }

    /// [`Objects::promise_call`] with `promised`, an id that was minted for the ref.
    pub fn promise_at(
        &mut self,
        promised: u64,
        id: u64,
        method: &str,
        payload: Payload,
        receipt: u64,
        interface: &str,
    ) -> (remote: Remote)
        requires
            old(self)@.wf(),
            old(self)@.mintable(promised),
            old(self)@.next_request_id < u64::MAX,
        ensures
            remote.spec_id() == promised,
            final(self)@ == old(self)@.connected(promised, interface@).called(
                id,
                method@,
                payload@,
                Some(receipt),
                Some(promised),
            ),
            final(self)@.wf(),
    {
        let remote = self.connect_id(promised, interface);
        self.send(id, method, payload, Some(receipt), Some(promised));
        remote
    }

    /// Send one notify or typed event from a local home to every observer object the
    /// other end registered, in order: plain calls, fire and forget.
    pub fn notify_observers(&mut self, id: u64, method: &str, payload: &Payload)
        requires
            old(self)@.wf(),
        ensures
            final(self)@ == old(self)@.notified(id, method@, payload@),
            final(self)@.wf(),
    {
        let observers: Vec<u64> = match self.homes.get(id) {
            Some(home) => home.observers.clone(),
            None => {
                return ;
            },
        };
        assert(observers@ =~= self@.homes[id].observers);
        let ghost each = |observer: u64| event_call(observer, method@, payload@);
        let mut i: usize = 0;
        while i < observers.len()
            invariant
                i <= observers.len(),
                each == (|observer: u64| event_call(observer, method@, payload@)),
                self@ == (ObjectsModel {
                    outbound: old(self)@.outbound + observers@.take(i as int).map_values(each),
                    ..old(self)@
                }),
            decreases observers.len() - i,
        {
            self.outbound.push(
                Frame::Call(
                    Call {
                        target: observers[i],
                        request: None,
                        method: method.to_owned(),
                        payload: payload.duplicate(),
                        promised: None,
                    },
                ),
            );
            assert(self@.outbound =~= old(self)@.outbound + observers@.take(
                i as int + 1,
            ).map_values(each));
            i += 1;
        }
        assert(observers@.take(i as int) =~= observers@);
    }

    /// The other end is gone for good: every call still waiting on it fails with
    /// `reason`. The failed calls come back in no particular order.
    pub fn fail_pending(&mut self, reason: &str) -> (failed: Vec<FailedCall>)
        requires
            old(self)@.wf(),
        ensures
            final(self)@ == (ObjectsModel { pending_responses: Map::empty(), ..old(self)@ }),
            forall|i: int|
                0 <= i < failed@.len() ==> old(self)@.pending_responses.contains_key(
                    (#[trigger] failed@[i]).request,
                ) && old(self)@.pending_responses[failed@[i].request] == failed@[i].receipt
                    && failed@[i].error@ == reason@,
            forall|i: int, j: int|
                0 <= i < failed@.len() && 0 <= j < failed@.len() && i != j
                    ==> failed@[i].request != failed@[j].request,
            forall|request: u64|
                old(self)@.pending_responses.contains_key(request) ==> exists|i: int|
                    0 <= i < failed@.len() && (#[trigger] failed@[i]).request == request,
            final(self)@.wf(),
    {
        let requests = self.pending_responses.keys();
        let mut failed: Vec<FailedCall> = Vec::new();
        let mut i: usize = 0;
        while i < requests.len()
            invariant
                i <= requests.len(),
                self@ == old(self)@,
                forall|request: u64|
                    requests@.contains(request) <==> self@.pending_responses.contains_key(request),
                failed@.len() == i,
                forall|j: int|
                    0 <= j < i ==> (#[trigger] failed@[j]).request == requests@[j]
                        && self@.pending_responses[failed@[j].request] == failed@[j].receipt
                        && failed@[j].error@ == reason@,
            decreases requests.len() - i,
        {
            let request: u64 = requests[i];
            assert(requests@.contains(request));
            if let Some(receipt) = self.pending_responses.get(request) {
                failed.push(FailedCall { request, receipt: *receipt, error: reason.to_owned() });
            }
            i += 1;
        }
        assert forall|request: u64| old(self)@.pending_responses.contains_key(request) implies exists|
            i: int,
        |
            0 <= i < failed@.len() && (#[trigger] failed@[i]).request == request by {
            assert(requests@.contains(request));
            let i = choose|i: int| 0 <= i < requests@.len() && requests@[i] == request;
            assert(failed@[i].request == request);
        }
        assert forall|i: int|
            0 <= i < failed@.len() implies old(self)@.pending_responses.contains_key(
            (#[trigger] failed@[i]).request,
        ) by {
            assert(requests@.contains(requests@[i]));
        }
        self.pending_responses.clear();
        failed
    }

    /// Carry the outgoing frames away, in the order they were sent.
    pub fn take_outbound(&mut self) -> (frames: Vec<Frame>)
        requires
            old(self)@.wf(),
        ensures
            frame_models(frames@) == old(self)@.outbound,
            final(self)@ == (ObjectsModel { outbound: Seq::empty(), ..old(self)@ }),
            final(self)@.wf(),
    {
        self.outbound.take()
    }

    /// Install a side channel of this kind, in place of one there was.
    pub fn set_extension(&mut self, kind: u64, value: u64)
        requires
            old(self)@.wf(),
        ensures
            final(self)@ == (ObjectsModel {
                extensions: old(self)@.extensions.insert(kind, value),
                ..old(self)@
            }),
            final(self)@.wf(),
    {
        self.extensions.insert(kind, value);
    }

    /// The side channel of this kind.
    pub fn extension(&self, kind: u64) -> (value: Option<u64>)
        ensures
            value == (if self@.extensions.contains_key(kind) {
                Some(self@.extensions[kind])
            } else {
                None
            }),
    {
        match self.extensions.get(kind) {
            Some(value) => Some(*value),
            None => None,
        }
    }
}

/// What the hidden observer object behind a signal does with a call.
#[derive(Debug, PartialEq)]
pub enum ObserverAction {
    /// The home changed: notify the signal's observers.
    Notify,
    /// A typed event: emit it on the signal.
    Emit { name: String, payload: Payload },
}

/// Turn a call to an observer object back into reactivity: `$notify` is a notify, any
/// other method name is a typed event. Either way the call is answered with nothing.
pub fn observer_action(method: &str, payload: &Payload) -> (action: ObserverAction)
    ensures
        match action {
            ObserverAction::Notify => method@ == notify_event(),
            ObserverAction::Emit { name, payload: carried } => method@ != notify_event() && name@
                == method@ && carried@ == payload@,
        },
{
    if same_text(method, "$notify") {
        ObserverAction::Notify
    } else {
        ObserverAction::Emit { name: method.to_owned(), payload: payload.duplicate() }
    }
}

/// A call that will never be answered, and what its receipt gets instead.
#[derive(Debug, PartialEq)]
pub struct FailedCall {
    pub request: u64,
    pub receipt: u64,
    pub error: String,
}

/// What remains to be done is told under its own name: an outcome for its receipt, a call
/// for its handler, or frames to deliver, in order.
pub proof fn deliveries_hold_what_they_say(delivery: Delivery)
    ensures
        match delivery {
            Delivery::Done => delivery@ is Done,
            Delivery::Resolve { receipt, outcome } => {
                &&& delivery@ matches DeliveryModel::Resolve { receipt: said, outcome: resolved }
                &&& said == receipt
                &&& resolved == outcome_model(outcome)
            },
            Delivery::Dispatch { handler, call } => {
                &&& delivery@ matches DeliveryModel::Dispatch { handler: said, call: handed }
                &&& said == handler
                &&& handed == call@
            },
            Delivery::Redeliver(frames) => {
                &&& delivery@ matches DeliveryModel::Redeliver(said)
                &&& said.len() == frames@.len()
                &&& forall|i: int| 0 <= i < said.len() ==> #[trigger] said[i] == frames@[i]@
            },
        },
{
}

/// The two ways in which no fresh id is had are told apart.
pub proof fn mint_errors_say_why()
    ensures
        MintError::EntropyUnavailable.spec_message() == "system entropy is unavailable"@,
        MintError::Exhausted.spec_message() == "every object id that was drawn is taken"@,
{
}

} // verus!
