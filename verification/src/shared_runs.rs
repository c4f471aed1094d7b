//! What holds of the guest's shared entities through whatever is done to them, in whatever
//! order.

use vstd::prelude::*;
use crate::shared_guest::{
    ref_name, release_method, subscribe_method, SendModel, SharedModel, SharedOutModel,
};

verus! {

/// One thing done to the guest's end, with everything it is done with.
#[allow(inconsistent_fields)]
#[verifier::ext_equal]
pub enum SharedOperation {
    DispatchOutgoing {
        name: Seq<char>,
        method: Seq<char>,
        payload: Seq<u8>,
        receipt: Option<u64>,
    },
    Remote { name: Seq<char>, interface: Seq<char>, signal: u64 },
    Connect { entity_id: u64, interface: Seq<char>, candidate: u64 },
    CloneHandle { entity_id: u64 },
    DropHandle { entity_id: u64 },
    ResponseDelivered { request_id: u64 },
    Share { interface: Seq<char>, name: Seq<char>, methods: Map<Seq<char>, u64> },
    ShareAnonymous { entity: u64, methods: Map<Seq<char>, u64> },
    EmitHomeEvent { entity_id: u64, event: Seq<char>, payload: Seq<u8> },
    EntityAnnounced { entity_id: u64, interface: Seq<char>, name: Seq<char> },
    MessageDelivered { entity_id: u64, request_id: Option<u64>, method: Seq<char> },
    Respond { request_id: Option<u64>, outcome: Result<Seq<u8>, Seq<char>> },
    TakeOutbound,
}

impl SharedModel {
    /// The state after something was done.
    pub open spec fn operated(self, operation: SharedOperation) -> SharedModel {
        match operation {
            SharedOperation::DispatchOutgoing { name, method, payload, receipt } =>
            self.dispatched(name, method, payload, receipt),
            SharedOperation::Remote { name, interface, signal } => self.projected(
                name,
                interface,
                None,
                signal,
                0,
            ).dispatched(name, subscribe_method(), Seq::empty(), None),
            SharedOperation::Connect { entity_id, interface, candidate } => self.connected(
                entity_id,
                interface,
                candidate,
            ),
            SharedOperation::CloneHandle { entity_id } => self.with_handles(
                entity_id,
                self.projections[ref_name(entity_id)].handles + 1,
            ),
            SharedOperation::DropHandle { entity_id } => self.dropped(entity_id),
            SharedOperation::ResponseDelivered { request_id } => SharedModel {
                pending_responses: self.pending_responses.remove(request_id),
                ..self
            },
            SharedOperation::Share { interface, name, methods } => self.homed(methods, None).sent(
                SharedOutModel::Announce { homed: self.fresh_home_id(), interface, bound: name },
            ),
            SharedOperation::ShareAnonymous { entity, methods } => self.homed(
                methods,
                Some(entity),
            ),
            SharedOperation::EmitHomeEvent { entity_id, event, payload } => self.emitted(
                entity_id,
                event,
                payload,
            ),
            SharedOperation::EntityAnnounced { entity_id, interface, name } => self.announced(
                entity_id,
                interface,
                name,
            ),
            SharedOperation::MessageDelivered { entity_id, request_id, method } =>
            self.message_arrived(entity_id, request_id, method),
            SharedOperation::Respond { request_id, outcome } => self.answered(request_id, outcome),
            SharedOperation::TakeOutbound => SharedModel { outbound: Seq::empty(), ..self },
        }
    }

    /// The state after a run of operations, in order.
    pub open spec fn operated_all(self, run: Seq<SharedOperation>) -> SharedModel
        decreases run.len(),
    {
        if run.len() == 0 {
            self
        } else {
            self.operated_all(run.drop_last()).operated(run.last())
        }
    }

    /// Whether no operation of a run is of some kind when its turn comes.
    pub open spec fn never(
        self,
        run: Seq<SharedOperation>,
        kind: spec_fn(SharedModel, SharedOperation) -> bool,
    ) -> bool
        decreases run.len(),
    {
        run.len() == 0 || self.never(run.drop_last(), kind) && !kind(
            self.operated_all(run.drop_last()),
            run.last(),
        )
    }

    /// Whether an operation gives `entity_id` to another home: counting came round to it.
    pub open spec fn rehomes(self, operation: SharedOperation, entity_id: u64) -> bool {
        (operation is Share || operation is ShareAnonymous) && self.fresh_home_id() == entity_id
    }

    /// Whether an operation binds the projection of `name`, gives it up, or puts another one in
    /// its place.
    pub open spec fn rebinds(self, operation: SharedOperation, name: Seq<char>) -> bool {
        match operation {
            SharedOperation::Remote { name: other, .. } => other == name,
            SharedOperation::Connect { entity_id, .. } => ref_name(entity_id) == name,
            SharedOperation::DropHandle { entity_id } => ref_name(entity_id) == name,
            SharedOperation::EntityAnnounced { interface, name: other, .. } => other == name
                && self.binds(interface, name),
            _ => false,
        }
    }
}

/// Whether an operation is the message of this method for the home at `entity_id`.
pub open spec fn asks(operation: SharedOperation, entity_id: u64, method: Seq<char>) -> bool {
    operation matches SharedOperation::MessageDelivered { entity_id: other, method: asked, .. }
        && other == entity_id && asked == method
}

/// Operations that give the home's id to another one.
pub open spec fn rehoming(entity_id: u64) -> spec_fn(SharedModel, SharedOperation) -> bool {
    |end: SharedModel, operation: SharedOperation| end.rehomes(operation, entity_id)
}

/// Operations that release the home at `entity_id`, or give its id to another one.
pub open spec fn releasing(entity_id: u64) -> spec_fn(SharedModel, SharedOperation) -> bool {
    |end: SharedModel, operation: SharedOperation|
        asks(operation, entity_id, release_method()) || end.rehomes(operation, entity_id)
}

/// Operations that subscribe to the home at `entity_id`, or give its id to another one.
pub open spec fn subscribing(entity_id: u64) -> spec_fn(SharedModel, SharedOperation) -> bool {
    |end: SharedModel, operation: SharedOperation|
        asks(operation, entity_id, subscribe_method()) || end.rehomes(operation, entity_id)
}

/// Operations that bind the projection of `name`, give it up, or put another one in its place.
pub open spec fn rebinding(name: Seq<char>) -> spec_fn(SharedModel, SharedOperation) -> bool {
    |end: SharedModel, operation: SharedOperation| end.rebinds(operation, name)
}

proof fn lemma_methods_differ()
    ensures
        subscribe_method() != release_method(),
{
    reveal_strlit("$subscribe");
    reveal_strlit("$release");
    assert(subscribe_method().len() != release_method().len());
}

proof fn lemma_home_stays(end: SharedModel, operation: SharedOperation, entity_id: u64)
    requires
        end.homes.contains_key(entity_id),
        !end.rehomes(operation, entity_id),
    ensures
        ({
            let after = end.operated(operation);
            let home = end.homes[entity_id];
            &&& after.homes.contains_key(entity_id)
            &&& after.homes[entity_id].methods == home.methods
            &&& !asks(operation, entity_id, release_method()) ==> after.homes[entity_id].strong
                == home.strong && (home.subscribed ==> after.homes[entity_id].subscribed)
            &&& !asks(operation, entity_id, subscribe_method()) ==> (!home.subscribed
                ==> !after.homes[entity_id].subscribed)
            &&& home.strong is None ==> after.homes[entity_id].strong is None
        }),
{
    lemma_methods_differ();
}

proof fn lemma_home_unreleased(end: SharedModel, run: Seq<SharedOperation>, entity_id: u64)
    requires
        end.homes.contains_key(entity_id),
        end.never(run, releasing(entity_id)),
    ensures
        ({
            let after = end.operated_all(run);
            &&& after.homes.contains_key(entity_id)
            &&& after.homes[entity_id].strong == end.homes[entity_id].strong
            &&& end.homes[entity_id].subscribed ==> after.homes[entity_id].subscribed
        }),
    decreases run.len(),
{
    if run.len() > 0 {
        lemma_home_unreleased(end, run.drop_last(), entity_id);
        lemma_home_stays(end.operated_all(run.drop_last()), run.last(), entity_id);
    }
}

/// From a subscription on, through whatever is done until the release, every event of the home
/// reaches the other end, as long as its id is given to no other home.
pub proof fn events_flow_while_subscribed(
    end: SharedModel,
    entity_id: u64,
    request_id: Option<u64>,
    run: Seq<SharedOperation>,
    event: Seq<char>,
    payload: Seq<u8>,
)
    requires
        end.homes.contains_key(entity_id),
        end.message_arrived(entity_id, request_id, subscribe_method()).never(
            run,
            releasing(entity_id),
        ),
    ensures
        ({
            let subscribed = end.message_arrived(entity_id, request_id, subscribe_method());
            let after = subscribed.operated_all(run);
            after.emitted(entity_id, event, payload) == after.sent(
                SharedOutModel::Event { home: entity_id, name: event, data: payload },
            )
        }),
{
    let subscribed = end.message_arrived(entity_id, request_id, subscribe_method());
    lemma_home_unreleased(subscribed, run, entity_id);
}

/// From its release on, through whatever is done until somebody subscribes, a home's events go
/// nowhere, as long as its id is given to no other home.
pub proof fn released_entities_are_silent(
    end: SharedModel,
    entity_id: u64,
    request_id: Option<u64>,
    run: Seq<SharedOperation>,
    event: Seq<char>,
    payload: Seq<u8>,
)
    requires
        end.homes.contains_key(entity_id),
        end.message_arrived(entity_id, request_id, release_method()).never(
            run,
            subscribing(entity_id),
        ),
    ensures
        ({
            let released = end.message_arrived(entity_id, request_id, release_method());
            let after = released.operated_all(run);
            &&& after.homes.contains_key(entity_id)
            &&& !after.homes[entity_id].subscribed
            &&& after.emitted(entity_id, event, payload) == after
        }),
    decreases run.len(),
{
    let released = end.message_arrived(entity_id, request_id, release_method());
    lemma_methods_differ();
    if run.len() > 0 {
        let rest = run.drop_last();
        released_entities_are_silent(end, entity_id, request_id, rest, event, payload);
        lemma_home_stays(released.operated_all(rest), run.last(), entity_id);
    }
}

proof fn lemma_weak_stays(end: SharedModel, run: Seq<SharedOperation>, entity_id: u64)
    requires
        end.homes.contains_key(entity_id),
        end.homes[entity_id].strong is None,
        end.never(run, rehoming(entity_id)),
    ensures
        end.operated_all(run).homes.contains_key(entity_id),
        end.operated_all(run).homes[entity_id].strong is None,
    decreases run.len(),
{
    if run.len() > 0 {
        lemma_weak_stays(end, run.drop_last(), entity_id);
        lemma_home_stays(end.operated_all(run.drop_last()), run.last(), entity_id);
    }
}

/// An entity shared anonymously answers through whatever is done until the other end releases
/// it; from then on, through whatever is done, only while something else keeps it alive. Its
/// id is given to no other home meanwhile.
pub proof fn released_entities_stop_answering(
    end: SharedModel,
    methods: Map<Seq<char>, u64>,
    entity: u64,
    run: Seq<SharedOperation>,
    request_id: Option<u64>,
    later: Seq<SharedOperation>,
    live: Seq<u64>,
)
    requires
        ({
            let id = end.fresh_home_id();
            let held = end.homed(methods, Some(entity)).operated_all(run);
            &&& end.homed(methods, Some(entity)).never(run, releasing(id))
            &&& held.message_arrived(id, request_id, release_method()).never(later, rehoming(id))
        }),
    ensures
        ({
            let id = end.fresh_home_id();
            let held = end.homed(methods, Some(entity)).operated_all(run);
            let released = held.message_arrived(id, request_id, release_method());
            &&& held.answers(id, entity, live)
            &&& released.operated_all(later).answers(id, entity, live) <==> live.contains(entity)
        }),
{
    let id = end.fresh_home_id();
    let shared = end.homed(methods, Some(entity));
    let held = shared.operated_all(run);
    lemma_methods_differ();
    lemma_home_unreleased(shared, run, id);
    lemma_weak_stays(held.message_arrived(id, request_id, release_method()), later, id);
}

impl SharedModel {
    /// The messages for the entity bound to `name` that were sent in the course of a run, in
    /// order, each with the request id it goes by.
    pub open spec fn sends_to(self, run: Seq<SharedOperation>, name: Seq<char>) -> Seq<SendModel>
        decreases run.len(),
    {
        if run.len() == 0 {
            Seq::empty()
        } else {
            let earlier = self.sends_to(run.drop_last(), name);
            match run.last() {
                SharedOperation::DispatchOutgoing {
                    name: other,
                    method,
                    payload,
                    receipt,
                } if other == name => earlier.push(
                    SendModel {
                        request_id: self.operated_all(run.drop_last()).request_id(receipt),
                        method,
                        payload,
                    },
                ),
                _ => earlier,
            }
        }
    }
}

/// What is sent to an entity before its home is known waits, all of it and in order, through
/// whatever is done until the home is announced; then it goes out in that order.
pub proof fn early_sends_are_kept(
    end: SharedModel,
    name: Seq<char>,
    run: Seq<SharedOperation>,
    entity_id: u64,
)
    requires
        end.projections.contains_key(name),
        end.projections[name].entity_id is None,
        end.never(run, rebinding(name)),
    ensures
        ({
            let waiting = end.operated_all(run);
            let sends = end.projections[name].pending_sends + end.sends_to(run, name);
            let announced = waiting.announced(entity_id, end.projections[name].interface, name);
            &&& waiting.projections.contains_key(name)
            &&& waiting.projections[name].entity_id is None
            &&& waiting.projections[name].interface == end.projections[name].interface
            &&& waiting.projections[name].pending_sends == sends
            &&& announced.projections[name].pending_sends.len() == 0
            &&& announced.outbound == waiting.outbound + sends.map_values(
                |send: SendModel| send.addressed(entity_id),
            )
        }),
    decreases run.len(),
{
    let sends = end.projections[name].pending_sends + end.sends_to(run, name);
    if run.len() == 0 {
        assert(sends =~= end.projections[name].pending_sends);
    } else {
        early_sends_are_kept(end, name, run.drop_last(), entity_id);
        assert(end.operated_all(run).projections[name].pending_sends =~= sends);
    }
}

} // verus!
