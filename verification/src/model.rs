//! What an object registry is: the state of one end, and what each event does to it.

use vstd::prelude::*;
use crate::frame::{empty_payload, CallModel, FrameModel, OutcomeModel, PayloadModel};
use crate::text::decimal_chars;

verus! {

/// The reserved address meaning "the root object of whichever end you send it to".
pub const ROOT_ADDRESS: u64 = 0;

/// The method name by which a home tells its observers that it changed.
pub open spec fn notify_event() -> Seq<char> {
    "$notify"@
}

/// An entity of the surrounding application: which one, and of which type.
#[derive(Clone, Copy, Debug, PartialEq, Eq, Structural)]
pub struct EntityToken {
    pub entity: u64,
    pub kind: u64,
}

pub fn is_listed(tokens: &Vec<EntityToken>, token: EntityToken) -> (listed: bool)
    ensures
        listed == tokens@.contains(token),
{
    let mut i: usize = 0;
    while i < tokens.len()
        invariant
            i <= tokens.len(),
            forall|j: int| 0 <= j < i ==> tokens@[j] != token,
        decreases tokens.len() - i,
    {
        if tokens[i] == token {
            assert(tokens@[i as int] == token);
            return true;
        }
        i += 1;
    }
    false
}

/// How a home holds its entity.
#[derive(Clone, Copy, Debug, PartialEq, Eq, Structural)]
pub enum HomeEntity {
    /// A hidden observer object has no entity.
    Absent,
    /// Held alive for the other end.
    Strong(EntityToken),
    /// Found while something else keeps it alive.
    Weak(EntityToken),
}

impl HomeEntity {
    /// The holding after the other end released the object.
    pub open spec fn weakened(self) -> HomeEntity {
        match self {
            HomeEntity::Strong(token) => HomeEntity::Weak(token),
            _ => self,
        }
    }

    /// The entity, if it is there: a weak one only while it is among the `live`.
    pub open spec fn upgraded(self, live: Seq<EntityToken>) -> Option<EntityToken> {
        match self {
            HomeEntity::Absent => None,
            HomeEntity::Strong(token) => Some(token),
            HomeEntity::Weak(token) => if live.contains(token) {
                Some(token)
            } else {
                None
            },
        }
    }

    /// The other end released the object: stop keeping it alive.
    pub fn release(&mut self)
        ensures
            *final(self) == old(self).weakened(),
    {
        if let HomeEntity::Strong(token) = *self {
            *self = HomeEntity::Weak(token);
        }
    }

    /// The entity, if it is there. `live` lists the entities something else keeps alive.
    pub fn upgrade(&self, live: &Vec<EntityToken>) -> (entity: Option<EntityToken>)
        ensures
            entity == self.upgraded(live@),
    {
        match *self {
            HomeEntity::Absent => None,
            HomeEntity::Strong(token) => Some(token),
            HomeEntity::Weak(token) => if is_listed(live, token) {
                Some(token)
            } else {
                None
            },
        }
    }
}

/// Who answers the calls to a home.
#[derive(Clone, Copy, Debug, PartialEq, Eq, Structural)]
pub enum Handler {
    /// The dispatch closure of a shared object.
    Object(u64),
    /// The hidden observer object behind a projection's signal.
    Observer(u64),
}

/// What a home holds.
#[verifier::ext_equal]
pub struct HomeModel {
    /// The interface name, for diagnostics.
    pub interface: Seq<char>,
    pub handler: Handler,
    /// The observer objects on the other end, in the order they subscribed.
    pub observers: Seq<u64>,
    pub entity: HomeEntity,
    /// Whether notifies and events can be forwarded under another id too.
    pub resubscribe: bool,
}

/// Where the notifies and events of a projection land.
#[derive(Clone, Copy, Debug, PartialEq, Eq, Structural)]
pub struct SignalLink {
    pub signal: u64,
    /// The id of the hidden observer object that receives them.
    pub observer: u64,
}

/// What a projection holds.
#[verifier::ext_equal]
pub struct ProjectionModel {
    /// The interface name as first connected.
    pub interface: Seq<char>,
    /// Where the home's notifies and events land; absent while nobody listens.
    pub signal: Option<SignalLink>,
    /// How many remotes hold the projection.
    pub handles: nat,
}

/// The state of one end.
#[verifier::ext_equal]
pub struct ObjectsModel {
    pub homes: Map<u64, HomeModel>,
    pub projections: Map<u64, ProjectionModel>,
    /// The last request id given out.
    pub next_request_id: u64,
    /// The receipt waiting on each request.
    pub pending_responses: Map<u64, u64>,
    /// Promised ids whose allocating call has not answered, with the frames that arrived
    /// for them meanwhile.
    pub pending_promises: Map<u64, Seq<FrameModel>>,
    /// Promised ids whose allocating call failed, with the reason.
    pub failed_promises: Map<u64, Seq<char>>,
    /// Frames addressed to this end's root before there was one.
    pub pending_root_frames: Seq<FrameModel>,
    /// Projections whose last remote dropped.
    pub releases: Seq<u64>,
    /// The frames sent to the other end and not carried away yet.
    pub outbound: Seq<FrameModel>,
    /// Side channels beside the object model, by kind.
    pub extensions: Map<u64, u64>,
}

/// What a [`Delivery`] holds.
#[verifier::ext_equal]
pub enum DeliveryModel {
    Done,
    Resolve { receipt: u64, outcome: OutcomeModel },
    Dispatch { handler: Handler, call: CallModel },
    Redeliver(Seq<FrameModel>),
}

/// The id a call's answer is awaited under, where it promises one. The root's address is no
/// id to promise.
pub open spec fn awaited(promised: Option<u64>) -> Option<u64> {
    if promised == Some(ROOT_ADDRESS) {
        None
    } else {
        promised
    }
}

/// The call that carries a notify or a typed event to an observer.
pub open spec fn event_call(observer: u64, method: Seq<char>, payload: PayloadModel) -> FrameModel {
    FrameModel::Call(
        CallModel { target: observer, request: None, method, payload, promised: None },
    )
}

/// Why a call to an id without an object fails.
pub open spec fn unknown_object(id: u64) -> Seq<char> {
    "call to unknown object "@ + decimal_chars(id as nat)
}

/// Why the promise of a ref to `actual` fails when that object is not homed here.
pub open spec fn promise_not_homed(actual: u64) -> Seq<char> {
    "promised object "@ + decimal_chars(actual as nat) + " is not homed here"@
}

impl ObjectsModel {
    /// What holds of every state a registry is ever in.
    pub open spec fn wf(self) -> bool {
        &&& self.releases_wf()
        &&& self.signals_wf()
        &&& self.requests_wf()
        &&& self.queues_wf()
    }

    /// A release is queued exactly for the projections nobody holds, once each.
    pub open spec fn releases_wf(self) -> bool {
        &&& self.releases.no_duplicates()
        &&& forall|id: u64| #[trigger]
            self.releases.contains(id) <==> self.projections.contains_key(id)
                && self.projections[id].handles == 0
    }

    /// A projection someone listens to has a hidden observer object of its own.
    pub open spec fn signals_wf(self) -> bool {
        &&& forall|id: u64| #[trigger]
            self.projections.contains_key(id) ==> (self.projections[id].signal matches Some(link)
                ==> link.observer != ROOT_ADDRESS && self.homes.contains_key(link.observer))
        &&& forall|a: u64, b: u64|
            #![trigger self.projections[a], self.projections[b]]
            self.projections.contains_key(a) && self.projections.contains_key(b) && a != b ==> (
            self.projections[a].signal matches Some(one) ==> (
            self.projections[b].signal matches Some(other) ==> one.observer != other.observer))
    }

    /// Every request that is waited for was given out.
    pub open spec fn requests_wf(self) -> bool {
        forall|request: u64| #[trigger]
            self.pending_responses.contains_key(request) ==> 0 < request <= self.next_request_id
    }

    /// The queues hold only frames addressed to what they wait for.
    pub open spec fn queues_wf(self) -> bool {
        &&& forall|i: int|
            0 <= i < self.pending_root_frames.len() ==> (
            #[trigger] self.pending_root_frames[i]).target() == Some(ROOT_ADDRESS)
        &&& forall|promised: u64, i: int|
            self.pending_promises.contains_key(promised) && 0 <= i
                < self.pending_promises[promised].len() ==> (
            #[trigger] self.pending_promises[promised][i]).target() == Some(promised)
    }

    /// The state in which nothing has happened yet.
    pub open spec fn initial() -> ObjectsModel {
        ObjectsModel {
            homes: Map::empty(),
            projections: Map::empty(),
            next_request_id: 0,
            pending_responses: Map::empty(),
            pending_promises: Map::empty(),
            failed_promises: Map::empty(),
            pending_root_frames: Seq::empty(),
            releases: Seq::empty(),
            outbound: Seq::empty(),
            extensions: Map::empty(),
        }
    }

    /// Whether `id` may be given to a new object.
    pub open spec fn mintable(self, id: u64) -> bool {
        &&& id != ROOT_ADDRESS
        &&& !self.homes.contains_key(id)
        &&& !self.projections.contains_key(id)
    }

    /// The state after `frame` was sent.
    pub open spec fn sent(self, frame: FrameModel) -> ObjectsModel {
        ObjectsModel { outbound: self.outbound.push(frame), ..self }
    }

    /// The state after a call was answered; one without a request id wants no answer.
    pub open spec fn responded(self, request: Option<u64>, outcome: OutcomeModel) -> ObjectsModel {
        match request {
            Some(request) => self.sent(FrameModel::Response { request, outcome }),
            None => self,
        }
    }

    /// The state with `home` at `id`.
    pub open spec fn installed(self, id: u64, home: HomeModel) -> ObjectsModel {
        ObjectsModel { homes: self.homes.insert(id, home), ..self }
    }

    /// The state after the projection of `id` was released, if there was one: the other
    /// end is told, and the hidden observer object goes too.
    pub open spec fn released(self, id: u64) -> ObjectsModel {
        if self.projections.contains_key(id) {
            ObjectsModel {
                projections: self.projections.remove(id),
                homes: match self.projections[id].signal {
                    Some(link) => self.homes.remove(link.observer),
                    None => self.homes,
                },
                ..self
            }.sent(FrameModel::Release { target: id })
        } else {
            self
        }
    }

    /// The state after `ids` were released, in order.
    pub open spec fn released_all(self, ids: Seq<u64>) -> ObjectsModel
        decreases ids.len(),
    {
        if ids.len() == 0 {
            self
        } else {
            self.released_all(ids.drop_last()).released(ids.last())
        }
    }

    /// The state after one more remote was attached to `id`. Connecting an id that is
    /// held already shares its projection; one whose last remote dropped is released
    /// before it is connected anew.
    pub open spec fn connected(self, id: u64, interface: Seq<char>) -> ObjectsModel {
        if self.projections.contains_key(id) && self.projections[id].handles > 0 {
            self.with_handles(id, self.projections[id].handles + 1)
        } else {
            let fresh = ObjectsModel {
                releases: self.releases.filter(other_than(id)),
                ..self
            }.released(id);
            ObjectsModel {
                projections: fresh.projections.insert(
                    id,
                    ProjectionModel { interface, signal: None, handles: 1 },
                ),
                ..fresh
            }
        }
    }

    /// The state with another count of remotes on `id`.
    pub open spec fn with_handles(self, id: u64, handles: nat) -> ObjectsModel {
        ObjectsModel {
            projections: self.projections.insert(
                id,
                ProjectionModel { handles, ..self.projections[id] },
            ),
            ..self
        }
    }

    /// The state after one remote of `id` dropped; the last one queues the release.
    pub open spec fn dropped(self, id: u64) -> ObjectsModel {
        let handles = (self.projections[id].handles - 1) as nat;
        let fewer = self.with_handles(id, handles);
        if handles == 0 {
            ObjectsModel { releases: self.releases.push(id), ..fewer }
        } else {
            fewer
        }
    }

    /// The state after a call was sent to `id`; to a released object nothing is sent.
    pub open spec fn called(
        self,
        id: u64,
        method: Seq<char>,
        payload: PayloadModel,
        receipt: Option<u64>,
        promised: Option<u64>,
    ) -> ObjectsModel {
        if !self.projections.contains_key(id) {
            self
        } else {
            match receipt {
                None => self.sent(
                    FrameModel::Call(
                        CallModel { target: id, request: None, method, payload, promised },
                    ),
                ),
                Some(receipt) => {
                    let request = (self.next_request_id + 1) as u64;
                    ObjectsModel {
                        next_request_id: request,
                        pending_responses: self.pending_responses.insert(request, receipt),
                        ..self
                    }.sent(
                        FrameModel::Call(
                            CallModel {
                                target: id,
                                request: Some(request),
                                method,
                                payload,
                                promised,
                            },
                        ),
                    )
                },
            }
        }
    }

    /// The state after somebody first listened to the projection of `id`: a hidden
    /// observer object exists, and the home is asked to notify it.
    pub open spec fn listening(self, id: u64, signal: u64, observer: u64) -> ObjectsModel {
        ObjectsModel {
            projections: self.projections.insert(
                id,
                ProjectionModel {
                    signal: Some(SignalLink { signal, observer }),
                    ..self.projections[id]
                },
            ),
            ..self.installed(observer, observer_home(signal))
        }.sent(FrameModel::Subscribe { target: id, observer })
    }

    /// The state after the home at `id` told all its observers, in order.
    pub open spec fn notified(
        self,
        id: u64,
        method: Seq<char>,
        payload: PayloadModel,
    ) -> ObjectsModel {
        if self.homes.contains_key(id) {
            ObjectsModel {
                outbound: self.outbound + self.homes[id].observers.map_values(
                    |observer: u64| event_call(observer, method, payload),
                ),
                ..self
            }
        } else {
            self
        }
    }

    /// The live entity of this kind homed at `id`.
    pub open spec fn entity_at(self, id: u64, kind: u64, live: Seq<EntityToken>) -> Option<
        EntityToken,
    > {
        if self.homes.contains_key(id) {
            match self.homes[id].entity.upgraded(live) {
                Some(token) if token.kind == kind => Some(token),
                _ => None,
            }
        } else {
            None
        }
    }

    /// The live entity homed at `id`.
    pub open spec fn answering(self, id: u64, live: Seq<EntityToken>) -> Option<EntityToken> {
        if self.homes.contains_key(id) {
            self.homes[id].entity.upgraded(live)
        } else {
            None
        }
    }

    /// Whether `ids` lists, once each, the homes of a live entity of this kind.
    pub open spec fn lists_entities(
        self,
        ids: Seq<u64>,
        kind: u64,
        live: Seq<EntityToken>,
    ) -> bool {
        &&& ids.no_duplicates()
        &&& forall|id: u64| #[trigger]
            ids.contains(id) <==> self.entity_at(id, kind, live) is Some
    }

    /// What a listener to `id` finds: nothing to listen to, or the signal there is; no
    /// answer where the projection has no signal yet.
    pub open spec fn signal_at(self, id: u64) -> Option<Option<u64>> {
        if !self.projections.contains_key(id) {
            Some(None)
        } else {
            match self.projections[id].signal {
                Some(link) => Some(Some(link.signal)),
                None => None,
            }
        }
    }

    /// Whether `after` is the state in which somebody listens to `id`. The first listener
    /// makes the signal, out of the `candidate`; where somebody listens already, or there
    /// is nothing to listen to, nothing happens.
    pub open spec fn observed(self, id: u64, candidate: u64, after: ObjectsModel) -> bool {
        if self.signal_at(id) is Some {
            after == self
        } else {
            exists|observer: u64| #[trigger]
                self.mintable(observer) && after == self.listening(id, candidate, observer)
        }
    }

    /// Whether a frame waits for, or was failed by, the promise of the id it is for.
    pub open spec fn intercepted(self, frame: FrameModel) -> bool {
        frame.target() matches Some(target) && (self.pending_promises.contains_key(target)
            || self.failed_promises.contains_key(target))
    }

    /// The state after a frame arrived for an id whose promise is pending or failed. What
    /// waits for a promise may promise an id itself, whose frames wait then too.
    pub open spec fn after_interception(self, frame: FrameModel) -> ObjectsModel {
        let target = frame.target()->0;
        if self.pending_promises.contains_key(target) {
            let expecting = self.promise_expected(frame);
            ObjectsModel {
                pending_promises: expecting.pending_promises.insert(
                    target,
                    expecting.pending_promises[target].push(frame),
                ),
                ..expecting
            }
        } else {
            match frame {
                FrameModel::Call(call) => self.completed(
                    call.request,
                    awaited(call.promised),
                    Err(self.failed_promises[target]),
                ),
                FrameModel::Release { .. } => ObjectsModel {
                    failed_promises: self.failed_promises.remove(target),
                    ..self
                },
                _ => self,
            }
        }
    }

    /// The state after a frame arrived that is for the root, which is not there yet.
    pub open spec fn root_queued(self, frame: FrameModel) -> ObjectsModel {
        ObjectsModel { pending_root_frames: self.pending_root_frames.push(frame), ..self }
    }

    /// The state in which frames for a promised id wait until its object exists.
    pub open spec fn promise_opened(self, promised: Option<u64>) -> ObjectsModel {
        match promised {
            Some(promised) if !self.pending_promises.contains_key(promised) => ObjectsModel {
                pending_promises: self.pending_promises.insert(promised, Seq::empty()),
                ..self
            },
            _ => self,
        }
    }

    /// The state in which frames for the id a frame promises wait, while the frame itself
    /// does.
    pub open spec fn promise_expected(self, frame: FrameModel) -> ObjectsModel {
        match frame {
            FrameModel::Call(call) => self.promise_opened(awaited(call.promised)),
            _ => self,
        }
    }

    /// The state after `frame` arrived.
    pub open spec fn delivered(self, frame: FrameModel) -> ObjectsModel {
        if self.intercepted(frame) {
            self.after_interception(frame)
        } else {
            match frame {
                FrameModel::Response { request, .. } => ObjectsModel {
                    pending_responses: self.pending_responses.remove(request),
                    ..self
                },
                FrameModel::Subscribe { target, observer } => if self.homes.contains_key(target) {
                    // A subscription is answered with an initial notify, so a new observer
                    // always fires at least once.
                    let home = self.homes[target];
                    self.installed(
                        target,
                        HomeModel { observers: home.observers.push(observer), ..home },
                    ).sent(event_call(observer, notify_event(), empty_payload()))
                } else if target == ROOT_ADDRESS {
                    self.root_queued(frame)
                } else {
                    self
                },
                FrameModel::Release { target } => if self.homes.contains_key(target) {
                    let home = self.homes[target];
                    self.installed(
                        target,
                        HomeModel {
                            entity: home.entity.weakened(),
                            observers: Seq::empty(),
                            ..home
                        },
                    )
                } else if target == ROOT_ADDRESS {
                    self.root_queued(frame)
                } else {
                    self
                },
                FrameModel::Call(call) => if self.homes.contains_key(call.target) {
                    self.promise_opened(call.promised)
                } else if call.target == ROOT_ADDRESS {
                    self.promise_expected(frame).root_queued(frame)
                } else {
                    self.completed(
                        call.request,
                        awaited(call.promised),
                        Err(unknown_object(call.target)),
                    )
                },
            }
        }
    }

    /// What an arriving frame leaves to be done.
    pub open spec fn delivery(self, frame: FrameModel) -> DeliveryModel {
        match frame {
            FrameModel::Response { request, outcome } if self.pending_responses.contains_key(
                request,
            ) => DeliveryModel::Resolve { receipt: self.pending_responses[request], outcome },
            FrameModel::Call(call) if !self.intercepted(frame) && self.homes.contains_key(
                call.target,
            ) => DeliveryModel::Dispatch { handler: self.homes[call.target].handler, call },
            FrameModel::Call(call) if self.refuses(call) && self.awaiting(call).len() > 0 =>
            DeliveryModel::Redeliver(self.awaiting(call)),
            _ => DeliveryModel::Done,
        }
    }

    /// Whether a call fails without reaching an object: its target's promise failed, or
    /// nobody is there.
    pub open spec fn refuses(self, call: CallModel) -> bool {
        if self.intercepted(FrameModel::Call(call)) {
            !self.pending_promises.contains_key(call.target)
        } else {
            !self.homes.contains_key(call.target) && call.target != ROOT_ADDRESS
        }
    }

    /// The frames that wait for the id a call promises, in order.
    pub open spec fn awaiting(self, call: CallModel) -> Seq<FrameModel> {
        match awaited(call.promised) {
            Some(promised) => self.promise_queue(promised),
            None => Seq::empty(),
        }
    }

    /// The object an answered promise turns out to name, or why there is none.
    pub open spec fn promise_result(self, outcome: OutcomeModel) -> Result<u64, Seq<char>> {
        match outcome {
            Err(error) => Err(error),
            Ok(payload) => if payload.refs.len() == 0 {
                Err("the call returned no ref to promise"@)
            } else if self.homes.contains_key(payload.refs[0]) {
                Ok(payload.refs[0])
            } else {
                Err(promise_not_homed(payload.refs[0]))
            },
        }
    }

    /// The state after the allocating call of `promised` answered: the returned object is
    /// installed under the promised id too, with no observers of its own yet, or the
    /// failure is remembered; nothing waits for the id any more.
    pub open spec fn promise_resolved(self, promised: u64, outcome: OutcomeModel) -> ObjectsModel {
        let settled = ObjectsModel {
            pending_promises: self.pending_promises.remove(promised),
            ..self
        };
        match self.promise_result(outcome) {
            Ok(actual) => settled.installed(
                promised,
                HomeModel { observers: Seq::empty(), ..self.homes[actual] },
            ),
            Err(error) => ObjectsModel {
                failed_promises: self.failed_promises.insert(promised, error),
                ..settled
            },
        }
    }

    /// The frames that waited for `promised`, in order.
    pub open spec fn promise_queue(self, promised: u64) -> Seq<FrameModel> {
        if self.pending_promises.contains_key(promised) {
            self.pending_promises[promised]
        } else {
            Seq::empty()
        }
    }

    /// The state after a handler answered a call.
    pub open spec fn completed(
        self,
        request: Option<u64>,
        promised: Option<u64>,
        outcome: OutcomeModel,
    ) -> ObjectsModel {
        let answered = self.responded(request, outcome);
        match promised {
            Some(promised) => answered.promise_resolved(promised, outcome),
            None => answered,
        }
    }
}

/// The test that keeps every id but `id`.
pub open spec fn other_than(id: u64) -> spec_fn(u64) -> bool {
    |other: u64| other != id
}

/// The hidden observer object behind a projection's signal.
pub open spec fn observer_home(signal: u64) -> HomeModel {
    HomeModel {
        interface: "observer"@,
        handler: Handler::Observer(signal),
        observers: Seq::empty(),
        entity: HomeEntity::Absent,
        resubscribe: false,
    }
}

/// A newly shared object.
pub open spec fn shared_home(
    interface: Seq<char>,
    handler: u64,
    entity: EntityToken,
    keep_alive: bool,
) -> HomeModel {
    HomeModel {
        interface,
        handler: Handler::Object(handler),
        observers: Seq::empty(),
        entity: if keep_alive {
            HomeEntity::Strong(entity)
        } else {
            HomeEntity::Weak(entity)
        },
        resubscribe: true,
    }
}

/// Filtering out what is not there changes nothing.
pub proof fn lemma_filter_absent(items: Seq<u64>, absent: u64)
    requires
        !items.contains(absent),
    ensures
        items.filter(other_than(absent)) == items,
    decreases items.len(),
{
    reveal(Seq::filter);
    if items.len() > 0 {
        assert forall|item: u64| items.drop_last().contains(item) implies items.contains(item) by {
            let i = choose|i: int| 0 <= i < items.drop_last().len() && items.drop_last()[i] == item;
            assert(items[i] == item);
        }
        lemma_filter_absent(items.drop_last(), absent);
        assert(items.contains(items.last()));
        assert(items.drop_last().push(items.last()) =~= items);
    }
}

impl ObjectsModel {
    /// Delivering a frame keeps the state well-formed.
    pub proof fn lemma_delivered_wf(self, frame: FrameModel)
        requires
            self.wf(),
        ensures
            self.delivered(frame).wf(),
    {
    }

    /// Connecting keeps the state well-formed.
    pub proof fn lemma_connected_wf(self, id: u64, interface: Seq<char>)
        requires
            self.wf(),
        ensures
            self.connected(id, interface).wf(),
    {
        let after = self.connected(id, interface);
        if self.projections.contains_key(id) && self.projections[id].handles > 0 {
        } else {
            lemma_filter_keeps_distinct(self.releases, id);
        }
    }

    /// Dropping a remote keeps the state well-formed.
    pub proof fn lemma_dropped_wf(self, id: u64)
        requires
            self.wf(),
            self.projections.contains_key(id),
            0 < self.projections[id].handles,
        ensures
            self.dropped(id).wf(),
    {
        let after = self.dropped(id);
        assert(!self.releases.contains(id));
        assert(forall|other: u64| #[trigger]
            self.releases.push(id).contains(other) <==> self.releases.contains(other) || other
                == id) by {
            broadcast use vstd::seq_lib::group_seq_properties;

        }
    }

    /// Listening keeps the state well-formed.
    pub proof fn lemma_listening_wf(self, id: u64, signal: u64, observer: u64)
        requires
            self.wf(),
            self.projections.contains_key(id),
            self.projections[id].signal is None,
            self.mintable(observer),
        ensures
            self.listening(id, signal, observer).wf(),
    {
    }

    /// Releasing some ids that have projections, once each, tells the other end of each
    /// in order and forgets just them.
    pub proof fn lemma_released_all(self, ids: Seq<u64>)
        requires
            self.signals_wf(),
            ids.no_duplicates(),
            forall|i: int| 0 <= i < ids.len() ==> self.projections.contains_key(#[trigger] ids[i]),
        ensures
            ({
                let after = self.released_all(ids);
                &&& after.signals_wf()
                &&& after.projections == self.projections.remove_keys(ids.to_set())
                &&& after.outbound == self.outbound + ids.map_values(
                    |id: u64| FrameModel::Release { target: id },
                )
                &&& after == ObjectsModel {
                    homes: after.homes,
                    projections: after.projections,
                    outbound: after.outbound,
                    ..self
                }
            }),
        decreases ids.len(),
    {
        let after = self.released_all(ids);
        if ids.len() == 0 {
            assert(after.projections =~= self.projections.remove_keys(ids.to_set()));
        } else {
            let before = self.released_all(ids.drop_last());
            let last = ids.last();
            self.lemma_released_all(ids.drop_last());
            assert(!ids.drop_last().to_set().contains(last));
            assert(before.projections.contains_key(last));
            assert(ids.drop_last().push(last) =~= ids);
            assert(forall|id: u64| #[trigger]
                ids.contains(id) <==> ids.drop_last().contains(id) || id == last) by {
                broadcast use vstd::seq_lib::group_seq_properties;

                assert(ids.drop_last().push(last) =~= ids);
            }
            assert(after.projections =~= self.projections.remove_keys(ids.to_set()));
            assert(ids.map_values(|id: u64| FrameModel::Release { target: id })
                =~= ids.drop_last().map_values(|id: u64| FrameModel::Release { target: id }).push(
                FrameModel::Release { target: last },
            ));
        }
    }

    /// Draining the releases keeps the state well-formed.
    pub proof fn lemma_drained_wf(self)
        requires
            self.wf(),
        ensures
            (ObjectsModel { releases: Seq::empty(), ..self }).released_all(self.releases).wf(),
    {
        let start = ObjectsModel { releases: Seq::empty(), ..self };
        assert forall|i: int| 0 <= i < self.releases.len() implies start.projections.contains_key(
            #[trigger] self.releases[i],
        ) by {
            assert(self.releases.contains(self.releases[i]));
        }
        start.lemma_released_all(self.releases);
    }
}

/// Filtering one item out of distinct items leaves the other ones, still distinct.
pub proof fn lemma_filter_keeps_distinct(items: Seq<u64>, out: u64)
    requires
        items.no_duplicates(),
    ensures
        ({
            let kept = items.filter(other_than(out));
            &&& kept.no_duplicates()
            &&& forall|item: u64| #[trigger]
                kept.contains(item) <==> items.contains(item) && item != out
        }),
    decreases items.len(),
{
    reveal(Seq::filter);
    let keep = other_than(out);
    let kept = items.filter(keep);
    if items.len() > 0 {
        let rest = items.drop_last();
        let last = items.last();
        lemma_filter_keeps_distinct(rest, out);
        assert(rest.push(last) =~= items);
        assert(!rest.contains(last));
        assert(forall|item: u64| #[trigger] items.contains(item) <==> rest.contains(item) || item == last) by {
            broadcast use vstd::seq_lib::group_seq_properties;

            assert(rest.push(last) =~= items);
        }
        assert(kept == if keep(last) {
            rest.filter(keep).push(last)
        } else {
            rest.filter(keep)
        });
        assert(forall|item: u64| #[trigger]
            rest.filter(keep).push(last).contains(item) <==> rest.filter(keep).contains(item) || item
                == last) by {
            broadcast use vstd::seq_lib::group_seq_properties;

        }
        if keep(last) {
            assert(!rest.filter(keep).contains(last));
            assert(kept.no_duplicates());
        }
        assert forall|item: u64| #[trigger] kept.contains(item) implies items.contains(item) && item
            != out by {
            assert(rest.contains(item) || item == last);
        }
        assert forall|item: u64| items.contains(item) && item != out implies #[trigger] kept.contains(
            item,
        ) by {
            assert(rest.contains(item) || item == last);
        }
    } else {
        assert(kept =~= items);
    }
}

} // verus!
