//! What holds of an object registry through whatever is done to it, in whatever order.

use vstd::prelude::*;
use crate::frame::{empty_payload, CallModel, FrameModel, OutcomeModel, PayloadModel};
use crate::model::{
    awaited, event_call, shared_home, DeliveryModel, EntityToken, HomeModel, ObjectsModel,
    ROOT_ADDRESS,
};
use crate::registry_laws::draining_releases_what_nobody_holds;

verus! {

/// One thing done to a registry, with everything it is done with.
#[allow(inconsistent_fields)]
#[verifier::ext_equal]
pub enum OperationModel {
    /// A frame arrived.
    Deliver(FrameModel),
    /// A handler answered a call.
    Complete { request: Option<u64>, promised: Option<u64>, outcome: OutcomeModel },
    /// A root was shared.
    ShareRoot(HomeModel),
    /// An object was shared under an id minted for it.
    Share { id: u64, home: HomeModel },
    Connect { id: u64, interface: Seq<char> },
    CloneRemote { id: u64 },
    DropRemote { id: u64 },
    DrainReleases,
    /// Somebody first listened to a projection.
    Listen { id: u64, signal: u64, observer: u64 },
    Send {
        id: u64,
        method: Seq<char>,
        payload: PayloadModel,
        receipt: Option<u64>,
        promised: Option<u64>,
    },
    /// A call whose response is a ref, with the id minted for that ref.
    PromiseCall {
        promised: u64,
        id: u64,
        method: Seq<char>,
        payload: PayloadModel,
        receipt: u64,
        interface: Seq<char>,
    },
    NotifyObservers { id: u64, method: Seq<char>, payload: PayloadModel },
    FailPending,
    TakeOutbound,
    SetExtension { kind: u64, value: u64 },
}

impl ObjectsModel {
    /// Whether something can be done: ids are minted before they are given to an object,
    /// handles are given back by those who have them, and requests can be numbered.
    pub open spec fn admits(self, operation: OperationModel) -> bool {
        match operation {
            OperationModel::Share { id, .. } => self.mintable(id),
            OperationModel::CloneRemote { id } => self.is_held(id),
            OperationModel::DropRemote { id } => self.is_held(id),
            OperationModel::Listen { id, observer, .. } => self.projections.contains_key(id)
                && self.projections[id].signal is None && self.mintable(observer),
            OperationModel::Send { receipt, .. } => receipt is Some ==> self.next_request_id
                < u64::MAX,
            OperationModel::PromiseCall { promised, .. } => self.mintable(promised)
                && self.next_request_id < u64::MAX,
            _ => true,
        }
    }

    /// The state after something was done.
    pub open spec fn operated(self, operation: OperationModel) -> ObjectsModel {
        match operation {
            OperationModel::Deliver(frame) => self.delivered(frame),
            OperationModel::Complete { request, promised, outcome } => self.completed(
                request,
                promised,
                outcome,
            ),
            OperationModel::ShareRoot(home) => self.rooted(home),
            OperationModel::Share { id, home } => self.installed(id, home),
            OperationModel::Connect { id, interface } => self.connected(id, interface),
            OperationModel::CloneRemote { id } => self.with_handles(
                id,
                self.projections[id].handles + 1,
            ),
            OperationModel::DropRemote { id } => self.dropped(id),
            OperationModel::DrainReleases => self.drained(),
            OperationModel::Listen { id, signal, observer } => self.listening(id, signal, observer),
            OperationModel::Send { id, method, payload, receipt, promised } => self.called(
                id,
                method,
                payload,
                receipt,
                promised,
            ),
            OperationModel::PromiseCall { promised, id, method, payload, receipt, interface } =>
            self.connected(promised, interface).called(
                id,
                method,
                payload,
                Some(receipt),
                Some(promised),
            ),
            OperationModel::NotifyObservers { id, method, payload } => self.notified(
                id,
                method,
                payload,
            ),
            OperationModel::FailPending => ObjectsModel { pending_responses: Map::empty(), ..self },
            OperationModel::TakeOutbound => ObjectsModel { outbound: Seq::empty(), ..self },
            OperationModel::SetExtension { kind, value } => ObjectsModel {
                extensions: self.extensions.insert(kind, value),
                ..self
            },
        }
    }

    /// The state after a run of operations, in order.
    pub open spec fn operated_all(self, run: Seq<OperationModel>) -> ObjectsModel
        decreases run.len(),
    {
        if run.len() == 0 {
            self
        } else {
            self.operated_all(run.drop_last()).operated(run.last())
        }
    }

    /// Whether each operation of a run can be done when its turn comes.
    pub open spec fn admits_all(self, run: Seq<OperationModel>) -> bool
        decreases run.len(),
    {
        run.len() == 0 || self.admits_all(run.drop_last()) && self.operated_all(
            run.drop_last(),
        ).admits(run.last())
    }

    /// Whether no operation of a run is of some kind when its turn comes.
    pub open spec fn never(
        self,
        run: Seq<OperationModel>,
        kind: spec_fn(ObjectsModel, OperationModel) -> bool,
    ) -> bool
        decreases run.len(),
    {
        run.len() == 0 || self.never(run.drop_last(), kind) && !kind(
            self.operated_all(run.drop_last()),
            run.last(),
        )
    }

    /// Whether somebody holds the projection of `id`.
    pub open spec fn is_held(self, id: u64) -> bool {
        self.projections.contains_key(id) && self.projections[id].handles > 0
    }

    /// Whether `observer` is the hidden observer object behind the projection of `id`.
    pub open spec fn hides(self, id: u64, observer: u64) -> bool {
        self.projections.contains_key(id) && (self.projections[id].signal matches Some(link)
            && link.observer == observer)
    }

    /// Whether an operation puts another object in the place of the one at `target`, or takes
    /// it away: a promise of the id is answered with an object, a root is shared again, or a
    /// hidden observer object goes with its projection.
    pub open spec fn replaces_home(self, operation: OperationModel, target: u64) -> bool {
        match operation {
            OperationModel::Complete { promised, outcome, .. } => promised == Some(target)
                && self.promise_result(outcome) is Ok,
            OperationModel::ShareRoot(_) => target == ROOT_ADDRESS,
            OperationModel::Connect { id, .. } => self.hides(id, target) && !self.is_held(id),
            OperationModel::DrainReleases => exists|id: u64| #[trigger]
                self.releases.contains(id) && self.hides(id, target),
            _ => false,
        }
    }

    /// Whether an operation is the other end's release of the object at `target`.
    pub open spec fn releases_home(self, operation: OperationModel, target: u64) -> bool {
        let release = FrameModel::Release { target };
        operation == OperationModel::Deliver(release) && !self.intercepted(release)
    }

    /// Whether an operation promises `id`, or lets its promise fail.
    pub open spec fn promises_anew(self, operation: OperationModel, id: u64) -> bool {
        match operation {
            OperationModel::Deliver(FrameModel::Call(call)) => call.promised == Some(id),
            OperationModel::Complete { promised, outcome, .. } => promised == Some(id)
                && self.promise_result(outcome) is Err,
            _ => false,
        }
    }

    /// Whether an operation answers the promise of `id`.
    pub open spec fn settles(self, operation: OperationModel, id: u64) -> bool {
        match operation {
            OperationModel::Deliver(FrameModel::Call(call)) => self.refuses(call) && awaited(
                call.promised,
            ) == Some(id),
            OperationModel::Complete { promised, .. } => promised == Some(id),
            _ => false,
        }
    }

    /// Whether the promise of `id` has failed, with this reason.
    pub open spec fn has_failed(self, id: u64, reason: Seq<char>) -> bool {
        &&& !self.pending_promises.contains_key(id)
        &&& self.failed_promises.contains_key(id)
        &&& self.failed_promises[id] == reason
    }
}

/// Whether an operation asks the object at `target` to notify somebody.
pub open spec fn subscribes(operation: OperationModel, target: u64) -> bool {
    operation matches OperationModel::Deliver(FrameModel::Subscribe { target: other, .. }) && other
        == target
}

/// Operations that put another object in the place of the one at `target`, or ask it to
/// notify somebody.
pub open spec fn replacing_or_subscribing(target: u64) -> spec_fn(
    ObjectsModel,
    OperationModel,
) -> bool {
    |end: ObjectsModel, operation: OperationModel|
        end.replaces_home(operation, target) || subscribes(operation, target)
}

/// Operations that put another object in the place of the one at `target`, or release it.
pub open spec fn replacing_or_releasing(target: u64) -> spec_fn(
    ObjectsModel,
    OperationModel,
) -> bool {
    |end: ObjectsModel, operation: OperationModel|
        end.replaces_home(operation, target) || end.releases_home(operation, target)
}

/// Operations that put another object in the place of the one at `target`, or promise the
/// id.
pub open spec fn replacing_or_promising(target: u64) -> spec_fn(
    ObjectsModel,
    OperationModel,
) -> bool {
    |end: ObjectsModel, operation: OperationModel|
        end.replaces_home(operation, target) || end.promises_anew(operation, target)
}

/// Operations that promise `id` again, or release it.
pub open spec fn promising_or_releasing(id: u64) -> spec_fn(ObjectsModel, OperationModel) -> bool {
    |end: ObjectsModel, operation: OperationModel|
        end.promises_anew(operation, id) || operation == OperationModel::Deliver(
            FrameModel::Release { target: id },
        )
}

/// Operations that answer the promise of `id`.
pub open spec fn settling(id: u64) -> spec_fn(ObjectsModel, OperationModel) -> bool {
    |end: ObjectsModel, operation: OperationModel| end.settles(operation, id)
}

/// Operations that put an object at the root's address, or promise it: a root is shared, or a
/// handler is asked for, or answers, a ref that goes by the root's address.
pub open spec fn rooting() -> spec_fn(ObjectsModel, OperationModel) -> bool {
    |end: ObjectsModel, operation: OperationModel|
        match operation {
            OperationModel::ShareRoot(_) => true,
            OperationModel::Deliver(FrameModel::Call(call)) => call.promised == Some(ROOT_ADDRESS)
                && end.delivery(FrameModel::Call(call)) is Dispatch,
            OperationModel::Complete { promised, .. } => promised == Some(ROOT_ADDRESS),
            _ => false,
        }
}

/// Operations that give the last handle on `id` back.
pub open spec fn letting_go(id: u64) -> spec_fn(ObjectsModel, OperationModel) -> bool {
    |end: ObjectsModel, operation: OperationModel|
        operation == (OperationModel::DropRemote { id }) && end.projections[id].handles == 1
}

/// Operations that answer a request, or give all of them up.
pub open spec fn answering_request(request: u64) -> spec_fn(ObjectsModel, OperationModel) -> bool {
    |end: ObjectsModel, operation: OperationModel|
        match operation {
            OperationModel::Deliver(FrameModel::Response { request: answered, .. }) => answered
                == request,
            OperationModel::FailPending => true,
            _ => false,
        }
}

/// Releasing projections touches nothing that waits, and takes away no object but the
/// hidden observers of those projections.
proof fn lemma_released_all_keeps(end: ObjectsModel, ids: Seq<u64>)
    ensures
        ({
            let after = end.released_all(ids);
            &&& after == (ObjectsModel {
                homes: after.homes,
                projections: after.projections,
                outbound: after.outbound,
                ..end
            })
            &&& forall|id: u64| #[trigger]
                after.projections.contains_key(id) ==> end.projections.contains_key(id)
                    && after.projections[id] == end.projections[id]
            &&& forall|target: u64| #[trigger]
                end.homes.contains_key(target) ==> {
                    ||| after.homes.contains_key(target) && after.homes[target]
                        == end.homes[target]
                    ||| exists|id: u64| #[trigger] ids.contains(id) && end.hides(id, target)
                }
            &&& forall|target: u64| #[trigger]
                after.homes.contains_key(target) ==> end.homes.contains_key(target)
        }),
    decreases ids.len(),
{
    if ids.len() > 0 {
        let rest = ids.drop_last();
        lemma_released_all_keeps(end, rest);
        let before = end.released_all(rest);
        let after = end.released_all(ids);
        assert forall|target: u64| #[trigger] end.homes.contains_key(target) implies {
            ||| after.homes.contains_key(target) && after.homes[target] == end.homes[target]
            ||| exists|id: u64| #[trigger] ids.contains(id) && end.hides(id, target)
        } by {
            if before.homes.contains_key(target) && before.homes[target] == end.homes[target] {
                if !after.homes.contains_key(target) {
                    assert(ids.contains(ids.last()));
                    assert(end.hides(ids.last(), target));
                }
            } else {
                let id = choose|id: u64| #[trigger] rest.contains(id) && end.hides(id, target);
                let i = choose|i: int| 0 <= i < rest.len() && rest[i] == id;
                assert(ids[i] == id);
                assert(ids.contains(id));
            }
        }
    }
}

proof fn lemma_operated_wf(end: ObjectsModel, operation: OperationModel)
    requires
        end.wf(),
        end.admits(operation),
    ensures
        end.operated(operation).wf(),
{
    match operation {
        OperationModel::Deliver(frame) => end.lemma_delivered_wf(frame),
        OperationModel::Connect { id, interface } => end.lemma_connected_wf(id, interface),
        OperationModel::CloneRemote { id } => end.lemma_connected_wf(id, Seq::empty()),
        OperationModel::DropRemote { id } => end.lemma_dropped_wf(id),
        OperationModel::DrainReleases => end.lemma_drained_wf(),
        OperationModel::Listen { id, signal, observer } => end.lemma_listening_wf(
            id,
            signal,
            observer,
        ),
        OperationModel::PromiseCall { promised, interface, .. } => end.lemma_connected_wf(
            promised,
            interface,
        ),
        _ => {},
    }
}

/// Whatever is done to a registry leaves it sound.
pub proof fn registries_stay_sound(end: ObjectsModel, run: Seq<OperationModel>)
    requires
        end.wf(),
        end.admits_all(run),
    ensures
        end.operated_all(run).wf(),
    decreases run.len(),
{
    if run.len() > 0 {
        registries_stay_sound(end, run.drop_last());
        lemma_operated_wf(end.operated_all(run.drop_last()), run.last());
    }
}

proof fn lemma_home_stays(end: ObjectsModel, operation: OperationModel, target: u64)
    requires
        end.wf(),
        end.admits(operation),
        end.homes.contains_key(target),
        !end.replaces_home(operation, target),
    ensures
        ({
            let after = end.operated(operation);
            let home = end.homes[target];
            &&& after.homes.contains_key(target)
            &&& after.homes[target].handler == home.handler
            &&& !end.releases_home(operation, target) ==> after.homes[target] == (HomeModel {
                observers: after.homes[target].observers,
                ..home
            }) && home.observers.is_prefix_of(after.homes[target].observers)
            &&& !end.releases_home(operation, target) && !subscribes(operation, target)
                ==> after.homes[target] == home
            &&& end.releases_home(operation, target) ==> after.homes[target] == (HomeModel {
                entity: home.entity.weakened(),
                observers: Seq::empty(),
                ..home
            })
        }),
{
    if operation is DrainReleases {
        let start = ObjectsModel { releases: Seq::empty(), ..end };
        lemma_released_all_keeps(start, end.releases);
        assert(start.homes.contains_key(target));
        assert forall|id: u64| #[trigger] end.releases.contains(id) implies !start.hides(
            id,
            target,
        ) by {
            assert(!end.hides(id, target));
        }
    }
}

proof fn lemma_answering_stays(end: ObjectsModel, operation: OperationModel, target: u64)
    requires
        end.wf(),
        end.admits(operation),
        end.homes.contains_key(target),
        !end.pending_promises.contains_key(target),
        !end.failed_promises.contains_key(target),
        !end.replaces_home(operation, target),
        !end.promises_anew(operation, target),
    ensures
        !end.operated(operation).pending_promises.contains_key(target),
        !end.operated(operation).failed_promises.contains_key(target),
{
    if operation is DrainReleases {
        lemma_released_all_keeps(ObjectsModel { releases: Seq::empty(), ..end }, end.releases);
    }
}

/// An object answers from the moment it is there, through whatever is done, its release
/// included: each call to it reaches its handler, until another object takes its place or its
/// id is promised.
pub proof fn objects_answer_from_then_on(
    end: ObjectsModel,
    target: u64,
    run: Seq<OperationModel>,
    call: CallModel,
)
    requires
        end.wf(),
        end.admits_all(run),
        end.homes.contains_key(target),
        !end.pending_promises.contains_key(target),
        !end.failed_promises.contains_key(target),
        end.never(run, replacing_or_promising(target)),
        call.target == target,
    ensures
        end.operated_all(run).homes.contains_key(target),
        !end.operated_all(run).pending_promises.contains_key(target),
        !end.operated_all(run).failed_promises.contains_key(target),
        end.operated_all(run).homes[target].handler == end.homes[target].handler,
        end.operated_all(run).delivery(FrameModel::Call(call)) == (DeliveryModel::Dispatch {
            handler: end.homes[target].handler,
            call,
        }),
    decreases run.len(),
{
    if run.len() > 0 {
        let before = end.operated_all(run.drop_last());
        objects_answer_from_then_on(end, target, run.drop_last(), call);
        registries_stay_sound(end, run.drop_last());
        lemma_home_stays(before, run.last(), target);
        lemma_answering_stays(before, run.last(), target);
    }
}

proof fn lemma_home_unreleased(end: ObjectsModel, target: u64, run: Seq<OperationModel>)
    requires
        end.wf(),
        end.admits_all(run),
        end.homes.contains_key(target),
        end.never(run, replacing_or_releasing(target)),
    ensures
        ({
            let after = end.operated_all(run);
            &&& after.homes.contains_key(target)
            &&& after.homes[target] == (HomeModel {
                observers: after.homes[target].observers,
                ..end.homes[target]
            })
            &&& end.homes[target].observers.is_prefix_of(after.homes[target].observers)
        }),
    decreases run.len(),
{
    if run.len() > 0 {
        lemma_home_unreleased(end, target, run.drop_last());
        registries_stay_sound(end, run.drop_last());
        lemma_home_stays(end.operated_all(run.drop_last()), run.last(), target);
    }
}

/// An observer stays registered through whatever is done, until the object is released or
/// another one takes its place: every notify and event of the home still reaches it.
pub proof fn observers_stay_until_released(
    end: ObjectsModel,
    target: u64,
    observer: u64,
    run: Seq<OperationModel>,
    method: Seq<char>,
    payload: PayloadModel,
)
    requires
        end.wf(),
        end.admits_all(run),
        end.homes.contains_key(target),
        end.homes[target].observers.contains(observer),
        end.never(run, replacing_or_releasing(target)),
    ensures
        ({
            let after = end.operated_all(run);
            &&& after.homes.contains_key(target)
            &&& end.homes[target].observers.is_prefix_of(after.homes[target].observers)
            &&& after.homes[target].observers.contains(observer)
            &&& after.outbound.is_prefix_of(after.notified(target, method, payload).outbound)
            &&& after.notified(target, method, payload).outbound.skip(
                after.outbound.len() as int,
            ).contains(event_call(observer, method, payload))
        }),
{
    let after = end.operated_all(run);
    let kept = end.homes[target].observers;
    lemma_home_unreleased(end, target, run);
    let heard = after.homes[target].observers;
    let at = choose|at: int| 0 <= at < kept.len() && kept[at] == observer;
    assert(heard[at] == observer);
    let told = heard.map_values(|other: u64| event_call(other, method, payload));
    assert(after.notified(target, method, payload).outbound.skip(after.outbound.len() as int)
        =~= told);
    assert(told[at] == event_call(observer, method, payload));
}

/// An object that was released stays silent, and is kept alive by others only, through
/// whatever is done until somebody subscribes anew or another object takes its place.
pub proof fn released_homes_stay_silent(
    end: ObjectsModel,
    target: u64,
    run: Seq<OperationModel>,
    method: Seq<char>,
    payload: PayloadModel,
)
    requires
        end.wf(),
        end.homes.contains_key(target),
        !end.intercepted(FrameModel::Release { target }),
        end.delivered(FrameModel::Release { target }).admits_all(run),
        end.delivered(FrameModel::Release { target }).never(
            run,
            replacing_or_subscribing(target),
        ),
    ensures
        ({
            let after = end.delivered(FrameModel::Release { target }).operated_all(run);
            &&& after.notified(target, method, payload) == after
            &&& after.homes.contains_key(target)
            &&& after.homes[target] == (HomeModel {
                entity: end.homes[target].entity.weakened(),
                observers: Seq::empty(),
                ..end.homes[target]
            })
        }),
    decreases run.len(),
{
    let released = end.delivered(FrameModel::Release { target });
    let after = released.operated_all(run);
    end.lemma_delivered_wf(FrameModel::Release { target });
    if run.len() > 0 {
        released_homes_stay_silent(end, target, run.drop_last(), method, payload);
        registries_stay_sound(released, run.drop_last());
        lemma_home_stays(released.operated_all(run.drop_last()), run.last(), target);
    }
    assert(after.notified(target, method, payload).outbound =~= after.outbound);
}

/// A shared entity answers for as long as the other end holds its object, through whatever
/// is done here and whatever else drops it; once the object is released, it answers only
/// while something else keeps it.
pub proof fn sharing_keeps_entities_alive(
    end: ObjectsModel,
    id: u64,
    interface: Seq<char>,
    handler: u64,
    entity: EntityToken,
    run: Seq<OperationModel>,
    live: Seq<EntityToken>,
)
    requires
        end.wf(),
        ({
            let shared = end.installed(id, shared_home(interface, handler, entity, true));
            shared.admits_all(run) && shared.never(run, replacing_or_releasing(id))
        }),
    ensures
        ({
            let shared = end.installed(id, shared_home(interface, handler, entity, true));
            let held = shared.operated_all(run);
            let released = held.delivered(FrameModel::Release { target: id });
            &&& shared.answering(id, live) == Some(entity)
            &&& held.answering(id, live) == Some(entity)
            &&& !held.intercepted(FrameModel::Release { target: id }) ==> released.answering(
                id,
                live,
            ) == if live.contains(entity) {
                Some(entity)
            } else {
                None
            }
        }),
{
    let shared = end.installed(id, shared_home(interface, handler, entity, true));
    lemma_home_unreleased(shared, id, run);
}

proof fn lemma_failure_stays(
    end: ObjectsModel,
    id: u64,
    reason: Seq<char>,
    run: Seq<OperationModel>,
)
    requires
        end.has_failed(id, reason),
        end.never(run, promising_or_releasing(id)),
    ensures
        end.operated_all(run).has_failed(id, reason),
    decreases run.len(),
{
    if run.len() > 0 {
        let before = end.operated_all(run.drop_last());
        lemma_failure_stays(end, id, reason, run.drop_last());
        if run.last() is DrainReleases {
            lemma_released_all_keeps(
                ObjectsModel { releases: Seq::empty(), ..before },
                before.releases,
            );
        }
    }
}

/// A promise whose allocating call failed answers every call through it with that failure,
/// through whatever is done, until the id is promised again or the caller releases it.
pub proof fn failed_promises_answer_until_released(
    end: ObjectsModel,
    request: Option<u64>,
    promised: u64,
    outcome: OutcomeModel,
    run: Seq<OperationModel>,
    later: CallModel,
)
    requires
        end.promise_result(outcome) is Err,
        end.completed(request, Some(promised), outcome).never(
            run,
            promising_or_releasing(promised),
        ),
        later.target == promised,
    ensures
        ({
            let reason = end.promise_result(outcome)->Err_0;
            let settled = end.completed(request, Some(promised), outcome);
            let after = settled.operated_all(run);
            let released = after.delivered(FrameModel::Release { target: promised });
            &&& settled.has_failed(promised, reason)
            &&& after.has_failed(promised, reason)
            &&& after.delivered(FrameModel::Call(later)) == after.completed(
                later.request,
                awaited(later.promised),
                Err(reason),
            )
            &&& after.delivered(FrameModel::Call(later)).outbound == after.responded(
                later.request,
                Err(reason),
            ).outbound
            &&& !(after.delivery(FrameModel::Call(later)) is Dispatch)
            &&& !released.intercepted(FrameModel::Call(later))
        }),
{
    let settled = end.completed(request, Some(promised), outcome);
    lemma_failure_stays(settled, promised, end.promise_result(outcome)->Err_0, run);
}

/// The frames for `id` that arrived in the course of a run, in order.
pub open spec fn frames_for(run: Seq<OperationModel>, id: u64) -> Seq<FrameModel>
    decreases run.len(),
{
    if run.len() == 0 {
        Seq::empty()
    } else {
        let earlier = frames_for(run.drop_last(), id);
        match run.last() {
            OperationModel::Deliver(frame) if frame.target() == Some(id) => earlier.push(frame),
            _ => earlier,
        }
    }
}

/// Root traffic that outruns the root waits, all of it and in order, through whatever is
/// done until there is a root.
pub proof fn root_traffic_is_kept(end: ObjectsModel, run: Seq<OperationModel>)
    requires
        end.admits_all(run),
        !end.homes.contains_key(ROOT_ADDRESS),
        !end.pending_promises.contains_key(ROOT_ADDRESS),
        !end.failed_promises.contains_key(ROOT_ADDRESS),
        end.never(run, rooting()),
    ensures
        ({
            let after = end.operated_all(run);
            &&& !after.homes.contains_key(ROOT_ADDRESS)
            &&& !after.pending_promises.contains_key(ROOT_ADDRESS)
            &&& !after.failed_promises.contains_key(ROOT_ADDRESS)
            &&& after.pending_root_frames == end.pending_root_frames + frames_for(
                run,
                ROOT_ADDRESS,
            )
        }),
    decreases run.len(),
{
    if run.len() == 0 {
        assert(end.pending_root_frames + frames_for(run, ROOT_ADDRESS)
            =~= end.pending_root_frames);
    } else {
        let before = end.operated_all(run.drop_last());
        root_traffic_is_kept(end, run.drop_last());
        if run.last() is DrainReleases {
            lemma_released_all_keeps(
                ObjectsModel { releases: Seq::empty(), ..before },
                before.releases,
            );
        }
        assert(end.operated_all(run).pending_root_frames =~= end.pending_root_frames + frames_for(
            run,
            ROOT_ADDRESS,
        ));
    }
}

/// Frames for a promised object wait for it, all of them and in order, through whatever is
/// done until its allocating call answers.
pub proof fn promised_frames_are_kept(
    end: ObjectsModel,
    promised: u64,
    run: Seq<OperationModel>,
)
    requires
        end.pending_promises.contains_key(promised),
        end.never(run, settling(promised)),
    ensures
        ({
            let after = end.operated_all(run);
            &&& after.pending_promises.contains_key(promised)
            &&& after.failed_promises.contains_key(promised)
                == end.failed_promises.contains_key(promised)
            &&& after.promise_queue(promised) == end.promise_queue(promised) + frames_for(
                run,
                promised,
            )
        }),
    decreases run.len(),
{
    if run.len() == 0 {
        assert(end.promise_queue(promised) + frames_for(run, promised) =~= end.promise_queue(
            promised,
        ));
    } else {
        let before = end.operated_all(run.drop_last());
        promised_frames_are_kept(end, promised, run.drop_last());
        if run.last() is DrainReleases {
            lemma_released_all_keeps(
                ObjectsModel { releases: Seq::empty(), ..before },
                before.releases,
            );
        }
        assert(end.operated_all(run).promise_queue(promised) =~= end.promise_queue(promised)
            + frames_for(run, promised));
    }
}

/// A promise is settled whole. The id is the second one of the object its allocating call
/// named, or fails with the reason; either way what waited is handed out, in the order it
/// arrived, and nothing waits any more. From then on, through whatever is done, a frame for
/// the id is applied to the object, until another takes its place; or a call is answered
/// with the reason, until the id is released. Promising the id again ends either.
pub proof fn promises_are_settled_whole(
    end: ObjectsModel,
    promised: u64,
    earlier: Seq<OperationModel>,
    request: Option<u64>,
    outcome: OutcomeModel,
    later: Seq<OperationModel>,
    frame: FrameModel,
)
    requires
        end.wf(),
        end.pending_promises.contains_key(promised),
        !end.failed_promises.contains_key(promised),
        end.admits_all(earlier),
        end.never(earlier, settling(promised)),
        ({
            let waiting = end.operated_all(earlier);
            let settled = waiting.completed(request, Some(promised), outcome);
            &&& settled.admits_all(later)
            &&& waiting.promise_result(outcome) is Ok ==> settled.never(
                later,
                replacing_or_promising(promised),
            )
            &&& waiting.promise_result(outcome) is Err ==> settled.never(
                later,
                promising_or_releasing(promised),
            )
        }),
        frame.target() == Some(promised),
    ensures
        ({
            let waiting = end.operated_all(earlier);
            let settled = waiting.completed(request, Some(promised), outcome);
            let after = settled.operated_all(later);
            let released = after.delivered(FrameModel::Release { target: promised });
            &&& waiting.promise_queue(promised) == end.pending_promises[promised] + frames_for(
                earlier,
                promised,
            )
            &&& settled.promise_queue(promised).len() == 0
            &&& match waiting.promise_result(outcome) {
                Ok(actual) => {
                    &&& settled.homes[promised] == (HomeModel {
                        observers: Seq::empty(),
                        ..waiting.homes[actual]
                    })
                    &&& after.homes.contains_key(promised)
                    &&& !after.intercepted(frame)
                    &&& frame matches FrameModel::Call(call) ==> after.delivery(frame) == (
                    DeliveryModel::Dispatch { handler: waiting.homes[actual].handler, call })
                },
                Err(reason) => {
                    &&& !(after.delivery(frame) is Dispatch)
                    &&& frame matches FrameModel::Call(call) ==> after.delivered(frame)
                        == after.completed(call.request, awaited(call.promised), Err(reason))
                    &&& !released.intercepted(frame)
                },
            }
        }),
{
    let waiting = end.operated_all(earlier);
    let settled = waiting.completed(request, Some(promised), outcome);
    let after = settled.operated_all(later);
    promised_frames_are_kept(end, promised, earlier);
    registries_stay_sound(end, earlier);
    lemma_operated_wf(
        waiting,
        OperationModel::Complete { request, promised: Some(promised), outcome },
    );
    match waiting.promise_result(outcome) {
        Ok(actual) => {
            let any = CallModel {
                target: promised,
                request: None,
                method: Seq::empty(),
                payload: empty_payload(),
                promised: None,
            };
            let call = if frame is Call {
                frame->Call_0
            } else {
                any
            };
            objects_answer_from_then_on(settled, promised, later, call);
        },
        Err(reason) => {
            lemma_failure_stays(settled, promised, reason, later);
        },
    }
}

/// A call waits for its answer through whatever is done, until the answer arrives or all
/// calls are given up; the answer then resolves its receipt.
pub proof fn requests_wait_for_their_answers(
    end: ObjectsModel,
    request: u64,
    run: Seq<OperationModel>,
    outcome: OutcomeModel,
)
    requires
        end.wf(),
        end.admits_all(run),
        end.pending_responses.contains_key(request),
        end.never(run, answering_request(request)),
    ensures
        end.operated_all(run).pending_responses.contains_key(request),
        end.operated_all(run).pending_responses[request] == end.pending_responses[request],
        end.operated_all(run).delivery(FrameModel::Response { request, outcome }) == (
        DeliveryModel::Resolve { receipt: end.pending_responses[request], outcome }),
    decreases run.len(),
{
    if run.len() > 0 {
        let before = end.operated_all(run.drop_last());
        requests_wait_for_their_answers(end, request, run.drop_last(), outcome);
        registries_stay_sound(end, run.drop_last());
        if run.last() is DrainReleases {
            lemma_released_all_keeps(
                ObjectsModel { releases: Seq::empty(), ..before },
                before.releases,
            );
        }
    }
}

/// How many handles on `id` a run leaves more than there were.
pub open spec fn handles_gained(run: Seq<OperationModel>, id: u64) -> int
    decreases run.len(),
{
    if run.len() == 0 {
        0
    } else {
        let earlier = handles_gained(run.drop_last(), id);
        match run.last() {
            OperationModel::Connect { id: other, .. } if other == id => earlier + 1,
            OperationModel::CloneRemote { id: other } if other == id => earlier + 1,
            OperationModel::DropRemote { id: other } if other == id => earlier - 1,
            _ => earlier,
        }
    }
}

proof fn lemma_held_stays(end: ObjectsModel, id: u64, operation: OperationModel)
    requires
        end.wf(),
        end.admits(operation),
        end.is_held(id),
        operation == (OperationModel::DropRemote { id }) ==> end.projections[id].handles != 1,
    ensures
        ({
            let after = end.operated(operation);
            let release = FrameModel::Release { target: id };
            &&& after.is_held(id)
            &&& after.projections[id].handles == end.projections[id].handles + handles_gained(
                seq![operation],
                id,
            )
            &&& after.projections[id].interface == end.projections[id].interface
            &&& end.projections[id].signal is Some ==> after.projections[id].signal
                == end.projections[id].signal
            &&& !end.outbound.contains(release) ==> !after.outbound.contains(release)
        }),
{
    let after = end.operated(operation);
    let release = FrameModel::Release { target: id };
    let one = seq![operation];
    assert(one.drop_last() =~= Seq::<OperationModel>::empty());
    assert(one.last() == operation);
    assert(handles_gained(one.drop_last(), id) == 0);
    if operation is DrainReleases {
        let start = ObjectsModel { releases: Seq::empty(), ..end };
        draining_releases_what_nobody_holds(end);
        lemma_released_all_keeps(start, end.releases);
        assert(!end.releases.contains(id));
        assert(end.drained().projections.contains_key(id));
        assert(after.projections[id] == end.projections[id]);
    }
    if !end.outbound.contains(release) && after.outbound.contains(release) {
        let i = choose|i: int| 0 <= i < after.outbound.len() && after.outbound[i] == release;
        assert(i < end.outbound.len() ==> end.outbound[i] != release);
        assert(false);
    }
}

/// A projection stays while somebody holds it, through whatever is done: each handle counts,
/// it goes by the interface it was first connected under, whoever listens still does, and its
/// home is not told to release it.
pub proof fn held_projections_stay(end: ObjectsModel, id: u64, run: Seq<OperationModel>)
    requires
        end.wf(),
        end.admits_all(run),
        end.is_held(id),
        end.never(run, letting_go(id)),
    ensures
        ({
            let after = end.operated_all(run);
            let release = FrameModel::Release { target: id };
            &&& after.is_held(id)
            &&& !after.releases.contains(id)
            &&& after.projections[id].handles == end.projections[id].handles + handles_gained(
                run,
                id,
            )
            &&& after.projections[id].interface == end.projections[id].interface
            &&& end.projections[id].signal is Some ==> after.projections[id].signal
                == end.projections[id].signal
            &&& !end.outbound.contains(release) ==> !after.outbound.contains(release)
        }),
    decreases run.len(),
{
    registries_stay_sound(end, run);
    if run.len() > 0 {
        let operation = run.last();
        let one = seq![operation];
        held_projections_stay(end, id, run.drop_last());
        registries_stay_sound(end, run.drop_last());
        lemma_held_stays(end.operated_all(run.drop_last()), id, operation);
        assert(one.drop_last() =~= Seq::<OperationModel>::empty());
        assert(one.last() == operation);
        assert(handles_gained(one.drop_last(), id) == 0);
    }
}

impl ObjectsModel {
    /// Everything that was to be sent by the end of a run: what was carried away in its
    /// course, in order, and what is still there.
    pub open spec fn sent_in_all(self, run: Seq<OperationModel>) -> Seq<FrameModel> {
        self.carried_away(run) + self.operated_all(run).outbound
    }

    /// The frames that were carried away in the course of a run, in order.
    pub open spec fn carried_away(self, run: Seq<OperationModel>) -> Seq<FrameModel>
        decreases run.len(),
    {
        if run.len() == 0 {
            Seq::empty()
        } else {
            let earlier = self.carried_away(run.drop_last());
            if run.last() is TakeOutbound {
                earlier + self.operated_all(run.drop_last()).outbound
            } else {
                earlier
            }
        }
    }
}

/// Frames leave in the order they were sent: whatever is done only appends to what was sent
/// before, and what is carried away is the start of it.
pub proof fn sending_only_appends(
    end: ObjectsModel,
    run: Seq<OperationModel>,
    operation: OperationModel,
)
    requires
        end.wf(),
        end.admits_all(run),
        end.operated_all(run).admits(operation),
    ensures
        end.sent_in_all(run).is_prefix_of(end.sent_in_all(run.push(operation))),
        end.carried_away(run).is_prefix_of(end.carried_away(run.push(operation))),
        end.carried_away(run).is_prefix_of(end.sent_in_all(run)),
{
    let before = end.operated_all(run);
    let longer = run.push(operation);
    assert(longer.drop_last() =~= run);
    assert(longer.last() == operation);
    registries_stay_sound(end, run);
    draining_releases_what_nobody_holds(before);
    if operation is TakeOutbound {
        assert(end.sent_in_all(longer) =~= end.sent_in_all(run));
    } else {
        assert(before.outbound.is_prefix_of(before.operated(operation).outbound));
    }
}

} // verus!
