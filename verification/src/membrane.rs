//! The revocable membrane: a forwarder that wraps every ref that crosses it, so that one
//! revocation severs everything reached through it.

use vstd::prelude::*;
use vstd::string::*;
use crate::capabilities::observe_target;
use crate::frame::{FrameModel, Outcome, Payload, PayloadModel};
use crate::model::{
    shared_home, EntityToken, Handler, HomeEntity, ObjectsModel, ProjectionModel,
};
use crate::registry::{MintError, Objects, Remote};
use crate::registry_laws::draining_releases_what_nobody_holds;
use crate::table::Table;

verus! {

/// A wrapper minted for a ref that crossed a membrane.
struct Wrapper {
    id: u64,
    target: Remote,
}

/// What is known of a minted wrapper.
#[verifier::ext_equal]
pub struct WrapperModel {
    /// The wrapper's own object id.
    pub id: u64,
    /// The object it wraps.
    pub target: u64,
}

impl View for Wrapper {
    type V = WrapperModel;

    closed spec fn view(&self) -> WrapperModel {
        WrapperModel { id: self.id, target: self.target.spec_id() }
    }
}

/// The interface name wrappers are connected and shared under.
pub open spec fn opaque_interface() -> Seq<char> {
    "opaque"@
}

/// What a membrane holds.
#[verifier::ext_equal]
pub struct MembraneModel {
    /// The object the root wrapper wraps, until it is severed.
    pub target: Option<u64>,
    pub revoked: bool,
    /// By inner object id, the wrapper minted for it.
    pub wrappers: Map<u64, WrapperModel>,
    /// By wrapper object id, the inner object id.
    pub inner_of: Map<u64, u64>,
    /// Who answers the calls to the wrappers, and of which type their entities are.
    pub handler: u64,
    pub kind: u64,
}

impl MembraneModel {
    /// Whether the two tables are each other's inverse.
    pub open spec fn wf(self) -> bool {
        &&& forall|inner: u64| #[trigger]
            self.wrappers.contains_key(inner) ==> self.wrappers[inner].target == inner
                && self.inner_of.contains_key(self.wrappers[inner].id)
                && self.inner_of[self.wrappers[inner].id] == inner
        &&& forall|wrapper: u64| #[trigger]
            self.inner_of.contains_key(wrapper) ==> self.wrappers.contains_key(
                self.inner_of[wrapper],
            ) && self.wrappers[self.inner_of[wrapper]].id == wrapper
        &&& self.revoked ==> self.target is None && self.wrappers.dom() =~= Set::empty()
    }

    /// How many handles on an object the membrane holds.
    pub open spec fn held(self, id: u64) -> nat {
        (if self.target == Some(id) {
            1nat
        } else {
            0
        }) + (if self.wrappers.contains_key(id) {
            1nat
        } else {
            0
        })
    }

    /// Whether the registry knows of everything the membrane holds: a projection with
    /// enough handles for each object it wraps, and for each wrapper a home that is no
    /// hidden observer.
    pub open spec fn known_to(self, objects: ObjectsModel) -> bool {
        &&& forall|id: u64| #[trigger]
            self.held(id) > 0 ==> objects.projections.contains_key(id) && self.held(id)
                <= objects.projections[id].handles
        &&& forall|wrapper: u64| #[trigger]
            self.inner_of.contains_key(wrapper) ==> objects.homes.contains_key(wrapper)
        &&& forall|wrapper: u64, id: u64|
            #![trigger self.inner_of.contains_key(wrapper), objects.projections.contains_key(id)]
            self.inner_of.contains_key(wrapper) && objects.projections.contains_key(id) ==> (
            objects.projections[id].signal matches Some(link) ==> link.observer != wrapper)
    }

    /// Whether a ref crosses without a wrapper being minted.
    pub open spec fn crosses(self, objects: ObjectsModel, id: u64) -> bool {
        self.inner_of.contains_key(id) || self.wrappers.contains_key(id)
            || objects.homes.contains_key(id)
    }

    /// Whether a ref is one of the membrane's: a wrapper, or an object it wraps.
    pub open spec fn knows(self, id: u64) -> bool {
        self.inner_of.contains_key(id) || self.wrappers.contains_key(id)
    }

    /// What a ref becomes on the other side, where no wrapper has to be minted: a wrapper
    /// is unwrapped, a wrapped object becomes its wrapper, and a local object passes as it
    /// is.
    pub open spec fn crossed(self, id: u64) -> u64 {
        if self.inner_of.contains_key(id) {
            self.inner_of[id]
        } else if self.wrappers.contains_key(id) {
            self.wrappers[id].id
        } else {
            id
        }
    }

    /// The state after `wrapper` was minted for `inner`.
    pub open spec fn wrapped(self, inner: u64, wrapper: u64) -> MembraneModel {
        MembraneModel {
            wrappers: self.wrappers.insert(inner, WrapperModel { id: wrapper, target: inner }),
            inner_of: self.inner_of.insert(wrapper, inner),
            ..self
        }
    }

    /// The registry after `wrapper` was shared, the wrapper minted for `inner`.
    pub open spec fn wrapper_shared(
        self,
        objects: ObjectsModel,
        inner: u64,
        wrapper: u64,
    ) -> ObjectsModel {
        objects.installed(
            wrapper,
            shared_home(
                opaque_interface(),
                self.handler,
                EntityToken { entity: inner, kind: self.kind },
                true,
            ),
        )
    }

    /// The state after the membrane was severed.
    pub open spec fn severed(self) -> MembraneModel {
        MembraneModel {
            target: None,
            revoked: true,
            wrappers: Map::empty(),
            inner_of: Map::empty(),
            ..self
        }
    }
}

/// Whether a ref crossed a membrane, from one state of it and of the registry to another,
/// as `translated`. One that needs a wrapper has it minted: the object is connected and
/// listened to, and the wrapper is shared.
pub open spec fn ref_crossed(
    before: MembraneModel,
    objects_before: ObjectsModel,
    id: u64,
    after: MembraneModel,
    objects_after: ObjectsModel,
    translated: u64,
) -> bool {
    if before.crosses(objects_before, id) {
        after == before && objects_after == objects_before && translated == before.crossed(id)
    } else {
        &&& after == before.wrapped(id, translated)
        &&& exists|observed: ObjectsModel|
            {
                &&& #[trigger] objects_before.connected(id, opaque_interface()).observed(
                    id,
                    id,
                    observed,
                )
                &&& observed.mintable(translated)
                &&& objects_after == before.wrapper_shared(observed, id, translated)
            }
    }
}

/// Whether a ref was stopped on its way, for want of an id to mint: no wrapper is there, and
/// the object is given back.
pub open spec fn ref_stopped(
    membrane: MembraneModel,
    objects_before: ObjectsModel,
    id: u64,
    objects_after: ObjectsModel,
) -> bool {
    let connected = objects_before.connected(id, opaque_interface());
    &&& !membrane.crosses(objects_before, id)
    &&& objects_after == connected.dropped(id) || exists|observed: ObjectsModel| #[trigger]
        connected.observed(id, id, observed) && objects_after == observed.dropped(id)
}

/// A membrane together with the registry it is in.
#[verifier::ext_equal]
pub struct Crossing {
    pub membrane: MembraneModel,
    pub objects: ObjectsModel,
}

/// Whether `states` are what a run of refs went through as they crossed, one after the
/// other.
pub open spec fn crossing_path(states: Seq<Crossing>, ids: Seq<u64>, translated: Seq<u64>) -> bool {
    &&& states.len() == ids.len() + 1
    &&& translated.len() == ids.len()
    &&& forall|i: int|
        #![trigger ids[i]]
        0 <= i < ids.len() ==> ref_crossed(
            states[i].membrane,
            states[i].objects,
            ids[i],
            states[i + 1].membrane,
            states[i + 1].objects,
            translated[i],
        )
}

/// Whether a run of refs crossed a membrane, one after the other.
pub open spec fn refs_crossed(
    before: MembraneModel,
    objects_before: ObjectsModel,
    ids: Seq<u64>,
    after: MembraneModel,
    objects_after: ObjectsModel,
    translated: Seq<u64>,
) -> bool {
    exists|states: Seq<Crossing>|
        {
            &&& #[trigger] crossing_path(states, ids, translated)
            &&& states[0] == (Crossing { membrane: before, objects: objects_before })
            &&& states[ids.len() as int] == (Crossing {
                membrane: after,
                objects: objects_after,
            })
        }
}

/// Whether each of these refs crosses without a wrapper being minted.
pub open spec fn all_cross(
    membrane: MembraneModel,
    objects: ObjectsModel,
    ids: Seq<u64>,
) -> bool {
    forall|i: int| 0 <= i < ids.len() ==> membrane.crosses(objects, #[trigger] ids[i])
}

/// Whether one of a run of refs was stopped, after those before it had crossed. That never
/// happens to refs none of which needs a wrapper.
pub open spec fn crossing_stopped(
    before: MembraneModel,
    objects_before: ObjectsModel,
    ids: Seq<u64>,
    after: MembraneModel,
    objects_after: ObjectsModel,
) -> bool {
    &&& !all_cross(before, objects_before, ids)
    &&& exists|at: int, between: ObjectsModel, translated: Seq<u64>|
        {
            &&& 0 <= at < ids.len()
            &&& #[trigger] refs_crossed(
                before,
                objects_before,
                ids.take(at),
                after,
                between,
                translated,
            )
            &&& ref_stopped(after, between, ids[at], objects_after)
        }
}

/// Whether every projection could be held by that many more remotes.
pub open spec fn spare_handles(objects: ObjectsModel, spare: nat) -> bool {
    forall|id: u64| #[trigger]
        objects.projections.contains_key(id) ==> objects.projections[id].handles + spare
            <= u64::MAX
}

/// Whether handles were given back, `given` many on each object, and nothing else
/// happened but that releases were queued.
pub open spec fn handles_given_back(
    before: ObjectsModel,
    after: ObjectsModel,
    given: spec_fn(u64) -> nat,
) -> bool {
    &&& after == (ObjectsModel {
        projections: after.projections,
        releases: after.releases,
        ..before
    })
    &&& after.projections.dom() =~= before.projections.dom()
    &&& forall|id: u64| #[trigger]
        before.projections.contains_key(id) ==> after.projections[id] == (ProjectionModel {
            handles: (before.projections[id].handles - given(id)) as nat,
            ..before.projections[id]
        })
}

/// A revocable membrane around a capability you hold. Hand out the wrapper instead of the
/// original: every method forwards to the wrapped object, and every ref that crosses, in
/// either direction, is itself wrapped, with refs to wrappers unwrapped on their way back.
/// Revoking severs all of it at once.
pub struct Revocable {
    target: Option<Remote>,
    revoked: bool,
    wrappers: Table<Wrapper>,
    inner_of: Table<u64>,
    handler: u64,
    kind: u64,
}

impl View for Revocable {
    type V = MembraneModel;

    closed spec fn view(&self) -> MembraneModel {
        MembraneModel {
            target: match self.target {
                Some(target) => Some(target.spec_id()),
                None => None,
            },
            revoked: self.revoked,
            wrappers: self.wrappers@,
            inner_of: self.inner_of@,
            handler: self.handler,
            kind: self.kind,
        }
    }
}

impl Revocable {
    /// Wrap `target` as the root of a new membrane. The wrapped object is listened to, for
    /// [`Revocable::pass_event`]. The wrappers minted for refs that cross the membrane are
    /// answered by `handler`, and their entities are of this kind.
    pub fn new(target: Remote, handler: u64, kind: u64, objects: &mut Objects) -> (revocable:
        Result<Revocable, MintError>)
        requires
            old(objects)@.wf(),
            old(objects)@.projections.contains_key(target.spec_id()),
            old(objects)@.projections[target.spec_id()].handles > 0,
        ensures
            match revocable {
                Ok(revocable) => {
                    &&& revocable@ == (MembraneModel {
                        target: Some(target.spec_id()),
                        revoked: false,
                        wrappers: Map::empty(),
                        inner_of: Map::empty(),
                        handler,
                        kind,
                    })
                    &&& revocable@.wf()
                    &&& revocable@.known_to(final(objects)@)
                    &&& old(objects)@.observed(
                        target.spec_id(),
                        target.spec_id(),
                        final(objects)@,
                    )
                },
                Err(_) => old(objects)@.signal_at(target.spec_id()) is None && final(objects)@
                    == old(objects)@.dropped(target.spec_id()),
            },
            final(objects)@.wf(),
    {
        match observe_target(target, objects) {
            Ok(target) => Ok(
                Revocable {
                    target: Some(target),
                    revoked: false,
                    wrappers: Table::new(),
                    inner_of: Table::new(),
                    handler,
                    kind,
                },
            ),
            Err(error) => Err(error),
        }
    }

    /// Whether [`Revocable::revoke`] has run.
    pub fn is_revoked(&self) -> (revoked: bool)
        ensures
            revoked == (self@.target is None),
    {
        self.target.is_none()
    }

    /// What a ref becomes on the other side: wrappers are unwrapped, local objects pass,
    /// everything else is wrapped (minting on first sight).
    fn translate_ref(&mut self, id: u64, objects: &mut Objects) -> (translated: Result<
        u64,
        MintError,
    >)
        requires
            old(self)@.wf(),
            !old(self)@.revoked,
            old(objects)@.wf(),
            old(self)@.known_to(old(objects)@),
            spare_handles(old(objects)@, 1),
        ensures
            final(self)@.wf(),
            !final(self)@.revoked,
            forall|spare: nat| #[trigger]
                spare_handles(old(objects)@, spare + 1) && spare < u64::MAX ==> spare_handles(
                    final(objects)@,
                    spare,
                ),
            final(objects)@.wf(),
            final(self)@.known_to(final(objects)@),
            match translated {
                Ok(translated) => ref_crossed(
                    old(self)@,
                    old(objects)@,
                    id,
                    final(self)@,
                    final(objects)@,
                    translated,
                ),
                Err(_) => final(self)@ == old(self)@ && ref_stopped(
                    old(self)@,
                    old(objects)@,
                    id,
                    final(objects)@,
                ),
            },
            final(objects)@.next_request_id == old(objects)@.next_request_id,
            final(objects)@.pending_responses == old(objects)@.pending_responses,
    {
        if let Some(inner) = self.inner_of.get(id) {
            return Ok(*inner);
        }
        if let Some(wrapper) = self.wrappers.get(id) {
            return Ok(wrapper.id);
        }
        if objects.is_local(id) {
            return Ok(id);
        }
        let ghost before = objects@;
        let target = objects.connect_id(id, "opaque");
        let ghost connected = objects@;
        proof {
            before.lemma_connected_wf(id, opaque_interface());
            lemma_connecting_keeps_held(self@, before, id);
        }
        let target = match observe_target(target, objects) {
            Ok(target) => target,
            Err(error) => {
                return Err(error);
            },
        };
        let ghost observed = objects@;
        proof {
            lemma_observing_keeps_held(self@, connected, id, observed);
        }
        let wrapper: u64 = match objects.reserve_local_id() {
            Ok(wrapper) => wrapper,
            Err(error) => {
                objects.drop_remote(target);
                return Err(error);
            },
        };
        self.wrap_at(target, wrapper, objects);
        Ok(wrapper)
    }

    /// Share `wrapper`, an id that was minted for it, as the wrapper of an object that is
    /// connected and has none yet.
    pub fn wrap_at(&mut self, target: Remote, wrapper: u64, objects: &mut Objects)
        requires
            old(self)@.wf(),
            !old(self)@.revoked,
            old(objects)@.wf(),
            old(self)@.known_to(old(objects)@),
            !old(self)@.crosses(old(objects)@, target.spec_id()),
            old(objects)@.projections.contains_key(target.spec_id()),
            old(self)@.held(target.spec_id()) < old(
                objects,
            )@.projections[target.spec_id()].handles,
            old(objects)@.mintable(wrapper),
        ensures
            final(self)@ == old(self)@.wrapped(target.spec_id(), wrapper),
            final(objects)@ == old(self)@.wrapper_shared(
                old(objects)@,
                target.spec_id(),
                wrapper,
            ),
            final(self)@.wf(),
            final(objects)@.wf(),
            final(self)@.known_to(final(objects)@),
    {
        let id: u64 = target.id();
        proof {
            lemma_wrapping_is_known(self@, objects@, id, wrapper);
        }
        objects.share_at(
            wrapper,
            "opaque",
            self.handler,
            EntityToken { entity: id, kind: self.kind },
            true,
        );
        self.wrappers.insert(id, Wrapper { id: wrapper, target });
        self.inner_of.insert(wrapper, id);
        assert(self@ =~= old(self)@.wrapped(id, wrapper));
    }
}

/// Through which of its wrappers a membrane is reached.
#[derive(Clone, Copy, Debug, PartialEq, Eq, Structural)]
pub enum Through {
    /// The one around the capability it was made for.
    Root,
    /// One minted for a ref that crossed, by its object id.
    Wrapper(u64),
}

/// Why a call through a membrane did not reach the wrapped object.
#[derive(Clone, Copy, Debug, PartialEq, Eq, Structural)]
pub enum ForwardError {
    Revoked,
    Mint(MintError),
}

/// What a call through a severed membrane fails with.
pub open spec fn capability_revoked() -> Seq<char> {
    "capability revoked"@
}

impl ForwardError {
    /// What the caller is answered.
    pub open spec fn spec_message(self) -> Seq<char> {
        match self {
            ForwardError::Revoked => capability_revoked(),
            ForwardError::Mint(error) => error.spec_message(),
        }
    }

    /// What the caller is answered.
    pub fn message(self) -> (message: String)
        ensures
            message@ == self.spec_message(),
    {
        match self {
            ForwardError::Revoked => "capability revoked".to_owned(),
            ForwardError::Mint(error) => error.message(),
        }
    }
}

impl MembraneModel {
    /// The object behind a wrapper, until the membrane is severed.
    pub open spec fn behind(self, through: Through) -> Option<u64> {
        match through {
            Through::Root => self.target,
            Through::Wrapper(id) => if self.inner_of.contains_key(id) {
                Some(self.inner_of[id])
            } else {
                None
            },
        }
    }
}

impl Revocable {
    fn target_of(&self, through: Through) -> (target: Option<u64>)
        ensures
            target == self@.behind(through),
    {
        match through {
            Through::Root => match &self.target {
                Some(target) => Some(target.id()),
                None => None,
            },
            Through::Wrapper(id) => match self.inner_of.get(id) {
                Some(inner) => Some(*inner),
                None => None,
            },
        }
    }

    /// Rewrite a payload's ref table for the other side of the membrane. Bytes are copied
    /// verbatim: they name refs by index, and the indices do not change.
    pub fn translate(&mut self, payload: &Payload, objects: &mut Objects) -> (translated: Result<
        Payload,
        MintError,
    >)
        requires
            old(self)@.wf(),
            !old(self)@.revoked,
            old(objects)@.wf(),
            old(self)@.known_to(old(objects)@),
            spare_handles(old(objects)@, payload@.refs.len()),
        ensures
            final(self)@.wf(),
            !final(self)@.revoked,
            final(objects)@.wf(),
            final(self)@.known_to(final(objects)@),
            match translated {
                Ok(translated) => translated@.bytes == payload@.bytes && refs_crossed(
                    old(self)@,
                    old(objects)@,
                    payload@.refs,
                    final(self)@,
                    final(objects)@,
                    translated@.refs,
                ),
                Err(_) => crossing_stopped(
                    old(self)@,
                    old(objects)@,
                    payload@.refs,
                    final(self)@,
                    final(objects)@,
                ),
            },
            final(objects)@.next_request_id == old(objects)@.next_request_id,
            final(objects)@.pending_responses == old(objects)@.pending_responses,
    {
        let mut refs: Vec<u64> = Vec::new();
        let ghost mut states: Seq<Crossing> = seq![
            Crossing { membrane: self@, objects: objects@ },
        ];
        let mut i: usize = 0;
        while i < payload.refs.len()
            invariant
                i <= payload.refs.len(),
                refs@.len() == i,
                self@.wf(),
                !self@.revoked,
                objects@.wf(),
                self@.known_to(objects@),
                spare_handles(objects@, (payload@.refs.len() - i) as nat),
                objects@.next_request_id == old(objects)@.next_request_id,
                objects@.pending_responses == old(objects)@.pending_responses,
                crossing_path(states, payload@.refs.take(i as int), refs@),
                states[0] == (Crossing { membrane: old(self)@, objects: old(objects)@ }),
                states[i as int] == (Crossing { membrane: self@, objects: objects@ }),
                all_cross(old(self)@, old(objects)@, payload@.refs) ==> self@ == old(self)@
                    && objects@ == old(objects)@,
            decreases payload.refs.len() - i,
        {
            let ghost refs_before = refs@;
            let ghost states_before = states;
            let ghost between = objects@;
            let ghost rest = (payload@.refs.len() - i - 1) as nat;
            assert(spare_handles(objects@, rest + 1));
            match self.translate_ref(payload.refs[i], objects) {
                Ok(id) => {
                    refs.push(id);
                },
                Err(error) => {
                    proof {
                        let crossed = payload@.refs.take(i as int);
                        assert(refs_crossed(
                            old(self)@,
                            old(objects)@,
                            crossed,
                            self@,
                            between,
                            refs@,
                        ));
                    }
                    return Err(error);
                },
            }
            proof {
                states = states_before.push(Crossing { membrane: self@, objects: objects@ });
                assert forall|j: int|
                    #![trigger payload@.refs.take(i as int + 1)[j]]
                    0 <= j < i + 1 implies ref_crossed(
                    states[j].membrane,
                    states[j].objects,
                    payload@.refs.take(i as int + 1)[j],
                    states[j + 1].membrane,
                    states[j + 1].objects,
                    refs@[j],
                ) by {
                    if j < i {
                        assert(payload@.refs.take(i as int + 1)[j] == payload@.refs.take(
                            i as int,
                        )[j]);
                        assert(refs@[j] == refs_before[j]);
                    }
                }
            }
            i += 1;
        }
        assert(payload@.refs.take(i as int) =~= payload@.refs);
        let bytes = payload.bytes.clone();
        assert(bytes@ =~= payload.bytes@);
        Ok(Payload::from_parts(bytes, refs))
    }

    /// Forward a call to the wrapped object, translating the refs of the request. The
    /// receipt gets the response, to be passed through [`Revocable::respond`].
    pub fn register(
        &mut self,
        through: Through,
        method: &str,
        payload: &Payload,
        receipt: u64,
        objects: &mut Objects,
    ) -> (forwarded: Result<(), ForwardError>)
        requires
            old(self)@.wf(),
            old(objects)@.wf(),
            old(self)@.known_to(old(objects)@),
            spare_handles(old(objects)@, payload@.refs.len()),
            old(objects)@.next_request_id < u64::MAX,
        ensures
            final(self)@.wf(),
            final(objects)@.wf(),
            final(self)@.known_to(final(objects)@),
            old(self)@.behind(through) is None <==> forwarded == Err::<(), ForwardError>(
                ForwardError::Revoked,
            ),
            match forwarded {
                Ok(_) => exists|crossed: PayloadModel, objects_between: ObjectsModel|
                    {
                        &&& crossed.bytes == payload@.bytes
                        &&& #[trigger] refs_crossed(
                            old(self)@,
                            old(objects)@,
                            payload@.refs,
                            final(self)@,
                            objects_between,
                            crossed.refs,
                        )
                        &&& final(objects)@ == objects_between.called(
                            old(self)@.behind(through)->0,
                            method@,
                            crossed,
                            Some(receipt),
                            None,
                        )
                    },
                Err(ForwardError::Revoked) => final(self)@ == old(self)@ && final(objects)@
                    == old(objects)@,
                // Nothing was forwarded.
                Err(ForwardError::Mint(_)) => crossing_stopped(
                    old(self)@,
                    old(objects)@,
                    payload@.refs,
                    final(self)@,
                    final(objects)@,
                ),
            },
    {
        let target: u64 = match self.target_of(through) {
            Some(target) => target,
            None => {
                return Err(ForwardError::Revoked);
            },
        };
        proof {
            lemma_severed_reaches_nothing(self@, through);
        }
        let crossed = match self.translate(payload, objects) {
            Ok(crossed) => crossed,
            Err(error) => {
                return Err(ForwardError::Mint(error));
            },
        };
        objects.send(target, method, crossed, Some(receipt), None);
        Ok(())
    }

    /// Pass a response back: refs translated, unless the membrane was severed meanwhile.
    pub fn respond(&mut self, outcome: Outcome, objects: &mut Objects) -> (answer: Result<
        Outcome,
        MintError,
    >)
        requires
            old(self)@.wf(),
            old(objects)@.wf(),
            old(self)@.known_to(old(objects)@),
            outcome matches Ok(payload) ==> spare_handles(old(objects)@, payload@.refs.len()),
        ensures
            final(self)@.wf(),
            final(objects)@.wf(),
            final(self)@.known_to(final(objects)@),
            match (outcome, answer) {
                (Err(error), answer) => (answer matches Ok(Err(same)) && same@ == error@)
                    && final(self)@ == old(self)@ && final(objects)@ == old(objects)@,
                (Ok(payload), Ok(Err(reason))) => old(self)@.revoked && reason@
                    == capability_revoked() && final(self)@ == old(self)@ && final(objects)@
                    == old(objects)@,
                (Ok(payload), Ok(Ok(crossed))) => !old(self)@.revoked && crossed@.bytes
                    == payload@.bytes && refs_crossed(
                    old(self)@,
                    old(objects)@,
                    payload@.refs,
                    final(self)@,
                    final(objects)@,
                    crossed@.refs,
                ),
                (Ok(payload), Err(_)) => !old(self)@.revoked && crossing_stopped(
                    old(self)@,
                    old(objects)@,
                    payload@.refs,
                    final(self)@,
                    final(objects)@,
                ),
            },
    {
        match outcome {
            Err(error) => Ok(Err(error)),
            Ok(payload) => {
                if self.revoked {
                    return Ok(Err("capability revoked".to_owned()));
                }
                match self.translate(&payload, objects) {
                    Ok(crossed) => Ok(Ok(crossed)),
                    Err(error) => Err(error),
                }
            },
        }
    }

    /// Pass an event of a wrapped object on, refs translated; a severed wrapper passes
    /// nothing.
    pub fn pass_event(&mut self, through: Through, payload: &Payload, objects: &mut Objects) -> (
        passed: Result<Option<Payload>, MintError>)
        requires
            old(self)@.wf(),
            old(objects)@.wf(),
            old(self)@.known_to(old(objects)@),
            spare_handles(old(objects)@, payload@.refs.len()),
        ensures
            final(self)@.wf(),
            final(objects)@.wf(),
            final(self)@.known_to(final(objects)@),
            match passed {
                Ok(None) => old(self)@.behind(through) is None && final(self)@ == old(self)@
                    && final(objects)@ == old(objects)@,
                Ok(Some(crossed)) => old(self)@.behind(through) is Some && crossed@.bytes
                    == payload@.bytes && refs_crossed(
                    old(self)@,
                    old(objects)@,
                    payload@.refs,
                    final(self)@,
                    final(objects)@,
                    crossed@.refs,
                ),
                Err(_) => old(self)@.behind(through) is Some && crossing_stopped(
                    old(self)@,
                    old(objects)@,
                    payload@.refs,
                    final(self)@,
                    final(objects)@,
                ),
            },
    {
        if self.target_of(through).is_none() {
            return Ok(None);
        }
        proof {
            lemma_severed_reaches_nothing(self@, through);
        }
        match self.translate(payload, objects) {
            Ok(crossed) => Ok(Some(crossed)),
            Err(error) => Err(error),
        }
    }

    /// Sever the whole membrane: this wrapper and every wrapper it minted drop their
    /// handles. Where one was the last, its home is told to let the object go. Returns the
    /// minted wrappers, whose observers are to be notified as those of this one are.
    pub fn revoke(&mut self, objects: &mut Objects) -> (severed: Vec<u64>)
        requires
            old(self)@.wf(),
            old(objects)@.wf(),
            old(self)@.known_to(old(objects)@),
        ensures
            severed@.no_duplicates(),
            forall|wrapper: u64| #[trigger]
                severed@.contains(wrapper) <==> old(self)@.inner_of.contains_key(wrapper),
            final(self)@ == old(self)@.severed(),
            final(self)@.wf(),
            final(objects)@.wf(),
            final(self)@.known_to(final(objects)@),
            handles_given_back(
                old(objects)@,
                final(objects)@,
                |id: u64| old(self)@.held(id),
            ),
    {
        let ghost membrane = self@;
        let ghost start = objects@;
        let severed = self.inner_of.keys();
        let mut target: Option<Remote> = None;
        core::mem::swap(&mut target, &mut self.target);
        let ghost mut given: Map<u64, nat> = Map::new(|id: u64| true, |id: u64| 0nat);
        if let Some(target) = target {
            let ghost root = target.spec_id();
            assert(membrane.held(root) > 0);
            objects.drop_remote(target);
            proof {
                given = given.insert(root, 1);
            }
        }
        let inner = self.wrappers.keys();
        let mut i: usize = 0;
        assert(inner@.take(0) =~= Seq::<u64>::empty());
        while i < inner.len()
            invariant
                i <= inner.len(),
                inner@.no_duplicates(),
                membrane.wf(),
                membrane.known_to(start),
                objects@.wf(),
                forall|id: u64| inner@.contains(id) <==> membrane.wrappers.contains_key(id),
                forall|id: u64| #[trigger]
                    self.wrappers@.contains_key(id) <==> membrane.wrappers.contains_key(id)
                        && !inner@.take(i as int).contains(id),
                forall|id: u64| #[trigger]
                    self.wrappers@.contains_key(id) ==> self.wrappers@[id] == membrane.wrappers[id],
                forall|id: u64| #[trigger] given.contains_key(id),
                forall|id: u64| #[trigger]
                    given[id] == (if membrane.target == Some(id) {
                        1nat
                    } else {
                        0
                    }) + (if inner@.take(i as int).contains(id) {
                        1nat
                    } else {
                        0
                    }),
                handles_given_back(start, objects@, |id: u64| given[id]),
                self.target is None,
                self.handler == membrane.handler,
                self.kind == membrane.kind,
            decreases inner.len() - i,
        {
            let id: u64 = inner[i];
            assert(inner@.contains(id));
            assert(inner@.take(i as int + 1) =~= inner@.take(i as int).push(id));
            assert(!inner@.take(i as int).contains(id));
            assert(forall|other: u64| #[trigger]
                inner@.take(i as int).push(id).contains(other) <==> inner@.take(i as int).contains(
                    other,
                ) || other == id) by {
                broadcast use vstd::seq_lib::group_seq_properties;

            }
            assert(membrane.held(id) > 0);
            assert(self.wrappers@.contains_key(id));
            let ghost before = objects@;
            if let Some(wrapper) = self.wrappers.remove(id) {
                objects.drop_remote(wrapper.target);
                proof {
                    let given_before = given;
                    given = given.insert(id, given[id] + 1);
                    assert(handles_given_back(start, objects@, |other: u64| given[other]));
                }
            }
            i += 1;
        }
        assert(inner@.take(i as int) =~= inner@);
        assert(handles_given_back(start, objects@, |id: u64| membrane.held(id))) by {
            assert forall|id: u64| given[id] == membrane.held(id) by {
                assert(inner@.contains(id) == membrane.wrappers.contains_key(id));
            }
        }
        self.revoked = true;
        self.wrappers.clear();
        self.inner_of.clear();
        assert(self@ =~= membrane.severed());
        severed
    }
}

/// A membrane through which something is reached was not severed.
proof fn lemma_severed_reaches_nothing(membrane: MembraneModel, through: Through)
    requires
        membrane.wf(),
        membrane.behind(through) is Some,
    ensures
        !membrane.revoked,
{
    if membrane.revoked {
        if let Through::Wrapper(id) = through {
            assert(membrane.wrappers.dom().contains(membrane.inner_of[id]));
        }
    }
}

/// Connecting an object that is not wrapped yet keeps what the membrane holds known.
proof fn lemma_connecting_keeps_held(membrane: MembraneModel, objects: ObjectsModel, id: u64)
    requires
        membrane.wf(),
        objects.wf(),
        membrane.known_to(objects),
        !objects.homes.contains_key(id),
        !membrane.inner_of.contains_key(id),
        !membrane.wrappers.contains_key(id),
    ensures
        membrane.known_to(objects.connected(id, opaque_interface())),
        objects.connected(id, opaque_interface()).projections.contains_key(id),
        objects.connected(id, opaque_interface()).projections[id].handles >= membrane.held(id) + 1,
{
}

/// Listening to an object keeps what the membrane holds known.
proof fn lemma_observing_keeps_held(
    membrane: MembraneModel,
    objects: ObjectsModel,
    id: u64,
    observed: ObjectsModel,
)
    requires
        membrane.known_to(objects),
        objects.observed(id, id, observed),
    ensures
        membrane.known_to(observed),
        forall|other: u64| #[trigger]
            observed.projections.contains_key(other) <==> objects.projections.contains_key(other),
        forall|other: u64| #[trigger]
            observed.projections.contains_key(other) ==> observed.projections[other].handles
                == objects.projections[other].handles,
{
}

/// What is held after a wrapper was minted is known.
proof fn lemma_wrapping_is_known(
    membrane: MembraneModel,
    objects: ObjectsModel,
    id: u64,
    wrapper: u64,
)
    requires
        membrane.wf(),
        objects.wf(),
        membrane.known_to(objects),
        !membrane.revoked,
        !membrane.crosses(objects, id),
        objects.projections.contains_key(id),
        membrane.held(id) < objects.projections[id].handles,
        objects.mintable(wrapper),
    ensures
        membrane.wrapped(id, wrapper).wf(),
        membrane.wrapped(id, wrapper).known_to(membrane.wrapper_shared(objects, id, wrapper)),
{
    let after = membrane.wrapped(id, wrapper);
    let objects_after = membrane.wrapper_shared(objects, id, wrapper);
    assert(!membrane.inner_of.contains_key(wrapper));
    assert forall|other: u64| #[trigger] after.held(other) > 0 implies {
        &&& objects_after.projections.contains_key(other)
        &&& after.held(other) <= objects_after.projections[other].handles
    } by {
        assert(after.held(other) == membrane.held(other) + if other == id {
            1nat
        } else {
            0nat
        });
        if other != id {
            assert(membrane.held(other) > 0);
        }
    }
}

/// A ref that was wrapped on its way through a membrane is itself again when its wrapper
/// comes back: the wrapped object sees its own objects.
pub proof fn wrapped_refs_come_back(
    before: MembraneModel,
    objects_before: ObjectsModel,
    id: u64,
    after: MembraneModel,
    objects_after: ObjectsModel,
    translated: u64,
)
    requires
        before.wf(),
        before.known_to(objects_before),
        !objects_before.homes.contains_key(id),
        ref_crossed(before, objects_before, id, after, objects_after, translated),
    ensures
        after.inner_of.contains_key(translated),
        ref_crossed(after, objects_after, translated, after, objects_after, id),
{
}

/// Whether a membrane is passed by a run of refs, one after the other: the states are those in
/// which each one arrives, and the registries those it leaves, which whatever else is done may
/// change before the next one arrives.
pub open spec fn refs_pass(
    states: Seq<Crossing>,
    left: Seq<ObjectsModel>,
    ids: Seq<u64>,
    translated: Seq<u64>,
) -> bool {
    &&& states.len() == ids.len() + 1
    &&& left.len() == ids.len()
    &&& translated.len() == ids.len()
    &&& forall|i: int|
        #![trigger ids[i]]
        0 <= i < ids.len() ==> {
            &&& states[i].membrane.wf()
            &&& states[i].membrane.known_to(states[i].objects)
            &&& states[i].objects.wf()
            &&& ref_crossed(
                states[i].membrane,
                states[i].objects,
                ids[i],
                states[i + 1].membrane,
                left[i],
                translated[i],
            )
        }
}

proof fn lemma_crossing_is_remembered(
    before: MembraneModel,
    objects_before: ObjectsModel,
    id: u64,
    after: MembraneModel,
    objects_after: ObjectsModel,
    translated: u64,
)
    requires
        before.wf(),
        before.known_to(objects_before),
        objects_before.wf(),
        ref_crossed(before, objects_before, id, after, objects_after, translated),
    ensures
        before.wrappers.submap_of(after.wrappers),
        before.inner_of.submap_of(after.inner_of),
        forall|other: u64| #[trigger]
            before.knows(other) ==> after.knows(other) && after.crossed(other)
                == before.crossed(other),
        before.knows(id) || !objects_before.homes.contains_key(id) ==> after.knows(id)
            && after.crossed(id) == translated && (!before.inner_of.contains_key(id)
            ==> after.wrappers.contains_key(id) && after.wrappers[id].id == translated),
{
    if !before.crosses(objects_before, id) {
        lemma_connecting_keeps_held(before, objects_before, id);
        assert(!before.inner_of.contains_key(translated));
        let connected = objects_before.connected(id, opaque_interface());
        assert forall|other: u64| #[trigger] before.knows(other) implies other != translated by {
            if before.wrappers.contains_key(other) {
                assert(before.held(other) > 0);
                assert(connected.projections.contains_key(other));
            }
        }
        assert(connected.projections.contains_key(id));
    }
}

/// A ref that crossed once crosses as the same one ever after, until the membrane is severed,
/// whatever else crosses and whatever else is done meanwhile: what is wrapped, and as what,
/// only grows. A wrapper that comes back is the wrapped object again, however late. (A local
/// object that passed as it is may be wrapped once it is no longer homed.)
pub proof fn wrappers_are_stable(
    states: Seq<Crossing>,
    left: Seq<ObjectsModel>,
    ids: Seq<u64>,
    translated: Seq<u64>,
    first: int,
    second: int,
)
    requires
        refs_pass(states, left, ids, translated),
        0 <= first < second < ids.len(),
        states[first].membrane.knows(ids[first]) || !states[first].objects.homes.contains_key(
            ids[first],
        ),
    ensures
        states[first].membrane.wrappers.submap_of(states[second].membrane.wrappers),
        states[first].membrane.inner_of.submap_of(states[second].membrane.inner_of),
        states[second].membrane.knows(ids[first]),
        states[second].membrane.crossed(ids[first]) == translated[first],
        ids[second] == ids[first] ==> translated[second] == translated[first],
        !states[first].membrane.inner_of.contains_key(ids[first]) ==> {
            &&& states[second].membrane.wrappers.contains_key(ids[first])
            &&& states[second].membrane.wrappers[ids[first]].id == translated[first]
            &&& states[second].membrane.crossed(translated[first]) == ids[first]
        },
    decreases second - first,
{
    assert(ids[second] == ids[second]);
    let last = second - 1;
    lemma_crossing_is_remembered(
        states[last].membrane,
        states[last].objects,
        ids[last],
        states[second].membrane,
        left[last],
        translated[last],
    );
    if first < last {
        wrappers_are_stable(states, left, ids, translated, first, last);
        let then = states[first].membrane.inner_of;
        assert forall|wrapper: u64| #[trigger] then.contains_key(wrapper) implies states[
            second
        ].membrane.inner_of.contains_key(wrapper) && states[second].membrane.inner_of[wrapper]
            == then[wrapper] by {
            assert(states[last].membrane.inner_of.contains_key(wrapper));
        }
    }
}

/// Once severed, a membrane is reached through none of its wrappers, and holds nothing;
/// severing it again changes nothing.
pub proof fn severed_membranes_are_dead(membrane: MembraneModel, through: Through, id: u64)
    ensures
        membrane.severed().behind(through) is None,
        membrane.severed().held(id) == 0,
        membrane.severed().wf(),
        membrane.severed().severed() == membrane.severed(),
{
}

/// Revoking reclaims what nobody else holds: with the releases drained, the home of every
/// object only the membrane held is told to let it go.
pub proof fn revoking_releases_what_nobody_else_holds(
    membrane: MembraneModel,
    before: ObjectsModel,
    after: ObjectsModel,
    id: u64,
)
    requires
        after.wf(),
        handles_given_back(before, after, |id: u64| membrane.held(id)),
        before.projections.contains_key(id),
        before.projections[id].handles == membrane.held(id),
    ensures
        !after.drained().projections.contains_key(id),
        after.drained().outbound.contains(FrameModel::Release { target: id }),
{
    draining_releases_what_nobody_holds(after);
    assert(after.projections.contains_key(id));
    assert(after.projections[id].handles == 0);
    assert(after.releases.contains(id));
    let at = choose|at: int| 0 <= at < after.releases.len() && after.releases[at] == id;
    let released = after.releases.map_values(|id: u64| FrameModel::Release { target: id });
    assert(released[at] == FrameModel::Release { target: id });
    assert((after.outbound + released)[after.outbound.len() + at] == released[at]);
}

/// A ref that needs no wrapper crosses as what it stands for: a wrapper as the object it
/// wraps, an object that has a wrapper as that wrapper, and an object homed here as itself.
pub proof fn known_refs_cross_as_their_counterpart(
    membrane: MembraneModel,
    objects: ObjectsModel,
    id: u64,
    translated: u64,
)
    requires
        ref_crossed(membrane, objects, id, membrane, objects, translated),
        membrane.inner_of.contains_key(id) || membrane.wrappers.contains_key(id)
            || objects.homes.contains_key(id),
    ensures
        membrane.inner_of.contains_key(id) ==> translated == membrane.inner_of[id],
        !membrane.inner_of.contains_key(id) && membrane.wrappers.contains_key(id) ==> translated
            == membrane.wrappers[id].id,
        !membrane.inner_of.contains_key(id) && !membrane.wrappers.contains_key(id) ==> translated
            == id,
{
}

/// A ref that is new to a membrane never crosses as itself: a wrapper with an id of its own
/// is shared for it, opaque, kept, answered by the membrane's handler and telling the object
/// it stands for. The object is held and listened to.
pub proof fn new_refs_cross_wrapped(
    before: MembraneModel,
    objects_before: ObjectsModel,
    id: u64,
    after: MembraneModel,
    objects_after: ObjectsModel,
    translated: u64,
)
    requires
        ref_crossed(before, objects_before, id, after, objects_after, translated),
        !before.inner_of.contains_key(id),
        !before.wrappers.contains_key(id),
        !objects_before.homes.contains_key(id),
    ensures
        translated != id,
        translated != 0,
        after.wrappers.contains_key(id),
        after.wrappers[id].id == translated,
        after.wrappers[id].target == id,
        after.inner_of.contains_key(translated),
        after.inner_of[translated] == id,
        after.target == before.target,
        after.revoked == before.revoked,
        after.handler == before.handler,
        after.kind == before.kind,
        objects_after.homes.contains_key(translated),
        objects_after.homes[translated].interface == "opaque"@,
        objects_after.homes[translated].handler == Handler::Object(before.handler),
        objects_after.homes[translated].entity == HomeEntity::Strong(
            EntityToken { entity: id, kind: before.kind },
        ),
        objects_after.projections.contains_key(id),
        objects_after.projections[id].handles > 0,
        objects_after.projections[id].signal is Some,
{
    let connected = objects_before.connected(id, opaque_interface());
    assert(connected.projections.contains_key(id));
}

/// The refs of a payload cross in place: each translated ref stands where the ref it
/// translates stood, so that the indices the bytes name them by still fit.
pub proof fn refs_cross_in_place(
    membrane: MembraneModel,
    objects: ObjectsModel,
    ids: Seq<u64>,
    after: MembraneModel,
    objects_after: ObjectsModel,
    translated: Seq<u64>,
    nth: int,
)
    requires
        refs_crossed(membrane, objects, ids, after, objects_after, translated),
        forall|i: int|
            0 <= i < ids.len() ==> membrane.inner_of.contains_key(#[trigger] ids[i])
                || membrane.wrappers.contains_key(ids[i]) || objects.homes.contains_key(ids[i]),
        0 <= nth < ids.len(),
    ensures
        translated.len() == ids.len(),
        membrane.inner_of.contains_key(ids[nth]) ==> translated[nth]
            == membrane.inner_of[ids[nth]],
        !membrane.inner_of.contains_key(ids[nth]) && membrane.wrappers.contains_key(ids[nth])
            ==> translated[nth] == membrane.wrappers[ids[nth]].id,
        !membrane.inner_of.contains_key(ids[nth]) && !membrane.wrappers.contains_key(ids[nth])
            ==> translated[nth] == ids[nth],
        after == membrane,
        objects_after == objects,
{
    let states = choose|states: Seq<Crossing>|
        {
            &&& #[trigger] crossing_path(states, ids, translated)
            &&& states[0] == (Crossing { membrane, objects })
            &&& states[ids.len() as int] == (Crossing { membrane: after, objects: objects_after })
        };
    lemma_path_stays(states, ids, translated, membrane, objects, nth);
    lemma_path_stays(states, ids, translated, membrane, objects, ids.len() as int);
    assert(ref_crossed(
        states[nth].membrane,
        states[nth].objects,
        ids[nth],
        states[nth + 1].membrane,
        states[nth + 1].objects,
        translated[nth],
    ));
}

proof fn lemma_path_stays(
    states: Seq<Crossing>,
    ids: Seq<u64>,
    translated: Seq<u64>,
    membrane: MembraneModel,
    objects: ObjectsModel,
    at: int,
)
    requires
        crossing_path(states, ids, translated),
        states[0] == (Crossing { membrane, objects }),
        all_cross(membrane, objects, ids),
        0 <= at <= ids.len(),
    ensures
        states[at] == (Crossing { membrane, objects }),
    decreases at,
{
    if at > 0 {
        lemma_path_stays(states, ids, translated, membrane, objects, at - 1);
        let id = ids[at - 1];
        assert(membrane.crosses(objects, id));
    }
}

/// The root wrapper leads to the capability the membrane was made for, every other to the
/// object it was minted for, and an id that is no wrapper nowhere.
pub proof fn wrappers_lead_to_what_they_wrap(membrane: MembraneModel, id: u64)
    ensures
        membrane.behind(Through::Root) == membrane.target,
        membrane.inner_of.contains_key(id) ==> membrane.behind(Through::Wrapper(id)) == Some(
            membrane.inner_of[id],
        ),
        !membrane.inner_of.contains_key(id) ==> membrane.behind(Through::Wrapper(id)) is None,
{
}

/// A call that did not reach the wrapped object says whether the capability was revoked or
/// no id was to be had.
pub proof fn forward_errors_say_why(error: MintError)
    ensures
        ForwardError::Revoked.spec_message() == "capability revoked"@,
        ForwardError::Mint(error).spec_message() == error.spec_message(),
        capability_revoked() == "capability revoked"@,
{
}

/// A membrane holds one handle for its root and one for each object it wraps, and gives just
/// those back when it is severed; who answered its wrappers stays known.
pub proof fn membranes_give_back_what_they_hold(
    membrane: MembraneModel,
    before: ObjectsModel,
    after: ObjectsModel,
    id: u64,
)
    requires
        handles_given_back(before, after, |id: u64| membrane.held(id)),
        before.projections.contains_key(id),
        membrane.known_to(before),
    ensures
        after.projections.contains_key(id),
        membrane.target == Some(id) && membrane.wrappers.contains_key(id)
            ==> after.projections[id].handles == before.projections[id].handles - 2,
        (membrane.target == Some(id)) != membrane.wrappers.contains_key(id)
            ==> after.projections[id].handles == before.projections[id].handles - 1,
        membrane.target != Some(id) && !membrane.wrappers.contains_key(id)
            ==> after.projections[id].handles == before.projections[id].handles,
        after.projections[id].signal == before.projections[id].signal,
        after.homes == before.homes,
        after.outbound == before.outbound,
        membrane.severed().revoked,
        membrane.severed().target is None,
        !membrane.severed().wrappers.contains_key(id),
        !membrane.severed().inner_of.contains_key(id),
        membrane.severed().handler == membrane.handler,
        membrane.severed().kind == membrane.kind,
{
    if membrane.held(id) > 0 {
        assert(membrane.held(id) <= before.projections[id].handles);
    }
}

/// A ref that was stopped on its way had no wrapper and is no local object; the object it names
/// is held by as many as before, and no home was installed in its name.
pub proof fn stopped_refs_are_given_back(
    membrane: MembraneModel,
    before: ObjectsModel,
    id: u64,
    after: ObjectsModel,
)
    requires
        ref_stopped(membrane, before, id, after),
    ensures
        !membrane.inner_of.contains_key(id),
        !membrane.wrappers.contains_key(id),
        !before.homes.contains_key(id),
        after.projections.contains_key(id),
        before.projections.contains_key(id) && before.projections[id].handles > 0
            ==> after.projections[id].handles == before.projections[id].handles,
        !(before.projections.contains_key(id) && before.projections[id].handles > 0)
            ==> after.projections[id].handles == 0 && after.releases.contains(id),
{
    let connected = before.connected(id, opaque_interface());
    assert(connected.projections.contains_key(id));
    if !(before.projections.contains_key(id) && before.projections[id].handles > 0) {
        assert(after.releases.last() == id);
        assert(after.releases[after.releases.len() - 1] == id);
    }
}

} // verus!
