//! What holds of object registries across several events, and between two ends.

use vstd::prelude::*;
use crate::frame::{empty_payload, CallModel, FrameModel, OutcomeModel, PayloadModel};
use crate::model::{
    awaited, event_call, lemma_filter_absent, notify_event, shared_home, unknown_object,
    DeliveryModel, EntityToken, Handler, HomeEntity, HomeModel, ObjectsModel,
    ROOT_ADDRESS,
};
use crate::text::decimal_chars;

verus! {

impl ObjectsModel {
    /// The state after `frames` arrived, in order.
    pub open spec fn delivered_all(self, frames: Seq<FrameModel>) -> ObjectsModel
        decreases frames.len(),
    {
        if frames.len() == 0 {
            self
        } else {
            self.delivered_all(frames.drop_last()).delivered(frames.last())
        }
    }

    /// The state after the queued releases were drained.
    pub open spec fn drained(self) -> ObjectsModel {
        ObjectsModel { releases: Seq::empty(), ..self }.released_all(self.releases)
    }
}

impl ObjectsModel {
    /// The state in which frames for every id that one of `frames` promises wait.
    pub open spec fn promises_expected(self, frames: Seq<FrameModel>) -> ObjectsModel
        decreases frames.len(),
    {
        if frames.len() == 0 {
            self
        } else {
            self.promises_expected(frames.drop_last()).promise_expected(frames.last())
        }
    }

    /// The state after a root was shared, with what waited for it handed out.
    pub open spec fn rooted(self, home: HomeModel) -> ObjectsModel {
        ObjectsModel {
            pending_root_frames: Seq::empty(),
            ..self.installed(ROOT_ADDRESS, home)
        }
    }
}

/// Letting promises wait touches nothing but the table of them, empties no queue, and
/// leaves the root's address free.
proof fn lemma_promises_expected(end: ObjectsModel, frames: Seq<FrameModel>)
    ensures
        ({
            let expecting = end.promises_expected(frames);
            &&& expecting == (ObjectsModel { pending_promises: expecting.pending_promises, ..end })
            &&& expecting.pending_promises.contains_key(ROOT_ADDRESS)
                == end.pending_promises.contains_key(ROOT_ADDRESS)
            &&& forall|promised: u64| #[trigger]
                end.pending_promises.contains_key(promised)
                    ==> expecting.pending_promises.contains_key(promised)
                    && expecting.pending_promises[promised] == end.pending_promises[promised]
        }),
    decreases frames.len(),
{
    if frames.len() > 0 {
        lemma_promises_expected(end, frames.drop_last());
    }
}

/// Root traffic that outruns the root waits, all of it and in order, and nothing is sent.
/// The ids it promises wait too. (`share_root` hands exactly this queue back for delivery.)
pub proof fn root_traffic_waits_in_order(end: ObjectsModel, frames: Seq<FrameModel>)
    requires
        !end.homes.contains_key(ROOT_ADDRESS),
        !end.pending_promises.contains_key(ROOT_ADDRESS),
        !end.failed_promises.contains_key(ROOT_ADDRESS),
        forall|i: int|
            0 <= i < frames.len() ==> (#[trigger] frames[i]).target() == Some(ROOT_ADDRESS),
    ensures
        end.delivered_all(frames) == (ObjectsModel {
            pending_root_frames: end.pending_root_frames + frames,
            ..end.promises_expected(frames)
        }),
        end.delivered_all(frames).outbound == end.outbound,
    decreases frames.len(),
{
    lemma_promises_expected(end, frames);
    if frames.len() == 0 {
        assert(end.pending_root_frames + frames =~= end.pending_root_frames);
    } else {
        root_traffic_waits_in_order(end, frames.drop_last());
        lemma_promises_expected(end, frames.drop_last());
        assert(frames[frames.len() - 1] == frames.last());
        assert((end.pending_root_frames + frames.drop_last()).push(frames.last())
            =~= end.pending_root_frames + frames);
    }
}

/// Once there is a root, nothing waits for it any more: each frame for it is applied at
/// once, a call by the root's handler.
pub proof fn roots_get_their_traffic(end: ObjectsModel, home: HomeModel, frame: FrameModel)
    requires
        !end.pending_promises.contains_key(ROOT_ADDRESS),
        !end.failed_promises.contains_key(ROOT_ADDRESS),
        frame.target() == Some(ROOT_ADDRESS),
    ensures
        end.rooted(home).delivered(frame).pending_root_frames.len() == 0,
        frame matches FrameModel::Call(call) ==> end.rooted(home).delivery(frame) == (
        DeliveryModel::Dispatch { handler: home.handler, call }),
        frame matches FrameModel::Subscribe { observer, .. } ==> end.rooted(home).delivered(
            frame,
        ).homes[ROOT_ADDRESS].observers == home.observers.push(observer),
        frame is Release ==> end.rooted(home).delivered(frame).homes[ROOT_ADDRESS] == (HomeModel {
            entity: home.entity.weakened(),
            observers: Seq::empty(),
            ..home
        }),
{
}

/// The two bootstraps may race, promises included: where a call to a root that is not there
/// yet promises an id, each frame for that id waits behind the call, in order, and nothing
/// is sent. Once the root is shared the call reaches it, and they wait still, for its
/// answer.
pub proof fn early_promises_wait_for_the_root(
    end: ObjectsModel,
    call: CallModel,
    promised: u64,
    frames: Seq<FrameModel>,
    home: HomeModel,
)
    requires
        !end.homes.contains_key(ROOT_ADDRESS),
        !end.pending_promises.contains_key(ROOT_ADDRESS),
        !end.failed_promises.contains_key(ROOT_ADDRESS),
        call.target == ROOT_ADDRESS,
        call.promised == Some(promised),
        promised != ROOT_ADDRESS,
        forall|i: int|
            0 <= i < frames.len() ==> (#[trigger] frames[i]).target() == Some(promised),
    ensures
        ({
            let waiting = end.delivered(FrameModel::Call(call)).delivered_all(frames);
            let rooted = waiting.rooted(home);
            &&& waiting.promise_queue(promised) == end.promise_queue(promised) + frames
            &&& waiting.pending_root_frames == end.pending_root_frames.push(FrameModel::Call(call))
            &&& waiting.outbound == end.outbound
            &&& rooted.delivery(FrameModel::Call(call)) == (DeliveryModel::Dispatch {
                handler: home.handler,
                call,
            })
            &&& rooted.delivered(FrameModel::Call(call)).promise_queue(promised)
                == end.promise_queue(promised) + frames
        }),
{
    let early = end.delivered(FrameModel::Call(call));
    promised_frames_wait_in_order(early, promised, frames);
    lemma_promises_expected(early, frames);
}

/// A call to an id nobody homes here is answered with a failure, if it wants an answer. An
/// id it promises fails with it; nothing else changes.
pub proof fn unknown_objects_fail_softly(end: ObjectsModel, call: CallModel)
    requires
        call.target != ROOT_ADDRESS,
        !end.homes.contains_key(call.target),
        !end.intercepted(FrameModel::Call(call)),
    ensures
        ({
            let answered = end.delivered(FrameModel::Call(call));
            let reason = unknown_object(call.target);
            &&& !(end.delivery(FrameModel::Call(call)) is Dispatch)
            &&& answered.outbound == end.responded(call.request, Err(reason)).outbound
            &&& call.promised is None ==> end.delivery(FrameModel::Call(call)) is Done && answered
                == end.responded(call.request, Err(reason))
            &&& awaited(call.promised) matches Some(promised) ==> answered == (ObjectsModel {
                pending_promises: end.pending_promises.remove(promised),
                failed_promises: end.failed_promises.insert(promised, reason),
                ..end.responded(call.request, Err(reason))
            })
        }),
{
}

/// A new observer hears one notify at once; from then on every notify and event of the
/// home reaches all its observers, in the order they subscribed, the new one last.
pub proof fn observers_hear_everything(
    end: ObjectsModel,
    target: u64,
    observer: u64,
    method: Seq<char>,
    payload: PayloadModel,
)
    requires
        end.homes.contains_key(target),
        !end.intercepted(FrameModel::Subscribe { target, observer }),
    ensures
        ({
            let subscribed = end.delivered(FrameModel::Subscribe { target, observer });
            let notified = subscribed.notified(target, method, payload);
            &&& subscribed.outbound == end.outbound.push(
                event_call(observer, notify_event(), empty_payload()),
            )
            &&& notified.outbound == subscribed.outbound + end.homes[target].observers.map_values(
                |other: u64| event_call(other, method, payload),
            ).push(event_call(observer, method, payload))
        }),
{
    let subscribed = end.delivered(FrameModel::Subscribe { target, observer });
    assert(subscribed.notified(target, method, payload).outbound =~= subscribed.outbound
        + end.homes[target].observers.map_values(
        |other: u64| event_call(other, method, payload),
    ).push(event_call(observer, method, payload)));
}

/// Once the other end released an object, its notifies and events go nowhere, and the
/// registry no longer keeps its entity alive.
pub proof fn released_homes_fall_silent(
    end: ObjectsModel,
    target: u64,
    method: Seq<char>,
    payload: PayloadModel,
)
    requires
        !end.intercepted(FrameModel::Release { target }),
    ensures
        ({
            let released = end.delivered(FrameModel::Release { target });
            &&& released.notified(target, method, payload) == released
            &&& released.outbound == end.outbound
            &&& released.homes.dom() == end.homes.dom()
            &&& end.homes.contains_key(target) ==> !(released.homes[target].entity is Strong)
                && released.homes[target].handler == end.homes[target].handler
        }),
{
    let released = end.delivered(FrameModel::Release { target });
    assert(released.notified(target, method, payload).outbound =~= released.outbound);
    assert(released.homes.dom() =~= end.homes.dom());
}

/// Sharing an entity twice makes two objects: what is done to the one leaves the other.
pub proof fn shares_are_independent(
    end: ObjectsModel,
    first: u64,
    second: u64,
    home: HomeModel,
)
    requires
        first != second,
    ensures
        ({
            let shared = end.installed(first, home).installed(second, home);
            let released = shared.delivered(FrameModel::Release { target: first });
            &&& shared.homes[first] == home
            &&& shared.homes[second] == home
            &&& released.homes.contains_key(second)
            &&& released.homes[second] == home
        }),
{
}

/// Connecting a ref that is held already, and dropping that handle again, leaves
/// everything as it was: two connects share one projection.
pub proof fn connects_share_a_projection(end: ObjectsModel, id: u64, interface: Seq<char>)
    requires
        end.wf(),
        end.projections.contains_key(id),
        end.projections[id].handles > 0,
    ensures
        end.connected(id, interface).dropped(id) == end,
        end.connected(id, interface).outbound == end.outbound,
{
    assert(end.connected(id, interface).dropped(id) =~= end);
}

/// Connecting a ref nobody holds and dropping the only handle sends, once drained, exactly
/// one release, and forgets the projection.
pub proof fn last_drop_releases_once(end: ObjectsModel, id: u64, interface: Seq<char>)
    requires
        end.wf(),
        !end.projections.contains_key(id),
        end.releases.len() == 0,
    ensures
        end.connected(id, interface).dropped(id).drained() == end.sent(
            FrameModel::Release { target: id },
        ),
{
    assert(!end.releases.contains(id));
    lemma_filter_absent(end.releases, id);
    let dropped = end.connected(id, interface).dropped(id);
    assert(dropped.releases =~= seq![id]);
    assert(seq![id].drop_last() =~= Seq::<u64>::empty());
    let start = ObjectsModel { releases: Seq::empty(), ..dropped };
    assert(start.released_all(seq![id].drop_last()) == start);
    assert(start.released_all(seq![id]) == start.released_all(seq![id].drop_last()).released(id));
    assert(dropped.drained() =~= end.sent(FrameModel::Release { target: id }));
}

impl ObjectsModel {
    /// The state after handles on `id` came and went, in order: one more for each `true`,
    /// one less for each `false`.
    pub open spec fn handled(self, id: u64, interface: Seq<char>, steps: Seq<bool>) -> ObjectsModel
        decreases steps.len(),
    {
        if steps.len() == 0 {
            self
        } else {
            let before = self.handled(id, interface, steps.drop_last());
            if steps.last() {
                before.connected(id, interface)
            } else {
                before.dropped(id)
            }
        }
    }
}

/// How many handles are left of `held` after some came and went.
pub open spec fn handles_left(held: int, steps: Seq<bool>) -> int
    decreases steps.len(),
{
    if steps.len() == 0 {
        held
    } else if steps.last() {
        handles_left(held, steps.drop_last()) + 1
    } else {
        handles_left(held, steps.drop_last()) - 1
    }
}

/// However many handles on an object come and go, in whatever order, they share one
/// projection: while one is left nothing is sent and nothing is to be released.
pub proof fn handles_share_a_projection(
    end: ObjectsModel,
    id: u64,
    interface: Seq<char>,
    steps: Seq<bool>,
)
    requires
        end.projections.contains_key(id),
        forall|n: int|
            0 <= n <= steps.len() ==> #[trigger] handles_left(
                end.projections[id].handles as int,
                steps.take(n),
            ) > 0,
    ensures
        end.handled(id, interface, steps) == end.with_handles(
            id,
            handles_left(end.projections[id].handles as int, steps) as nat,
        ),
        end.handled(id, interface, steps).outbound == end.outbound,
        end.handled(id, interface, steps).releases == end.releases,
    decreases steps.len(),
{
    let held = end.projections[id].handles as int;
    assert(steps.take(steps.len() as int) =~= steps);
    assert(handles_left(held, steps.take(steps.len() as int)) > 0);
    if steps.len() == 0 {
        assert(end =~= end.with_handles(id, held as nat));
    } else {
        let rest = steps.drop_last();
        assert(rest =~= steps.take(steps.len() - 1));
        assert(handles_left(held, steps.take(steps.len() - 1)) > 0);
        assert forall|n: int| 0 <= n <= rest.len() implies #[trigger] handles_left(
            held,
            rest.take(n),
        ) > 0 by {
            assert(rest.take(n) =~= steps.take(n));
        }
        handles_share_a_projection(end, id, interface, rest);
        assert(end.handled(id, interface, steps) =~= end.with_handles(
            id,
            handles_left(held, steps) as nat,
        ));
    }
}

/// The last handle of any number on a ref, connected here first, releases it: drained, the
/// home is told once, and everything else is as before the first connect.
pub proof fn last_of_many_drops_releases_once(
    end: ObjectsModel,
    id: u64,
    interface: Seq<char>,
    steps: Seq<bool>,
)
    requires
        end.wf(),
        !end.projections.contains_key(id),
        end.releases.len() == 0,
        forall|n: int|
            0 <= n <= steps.len() ==> #[trigger] handles_left(1, steps.take(n)) > 0,
        handles_left(1, steps) == 1,
    ensures
        end.connected(id, interface).handled(id, interface, steps).dropped(id).drained()
            == end.sent(FrameModel::Release { target: id }),
{
    let first = end.connected(id, interface);
    assert(!end.releases.contains(id));
    lemma_filter_absent(end.releases, id);
    assert(first.projections[id].handles == 1);
    handles_share_a_projection(first, id, interface, steps);
    assert(first.with_handles(id, 1) =~= first);
    last_drop_releases_once(end, id, interface);
}

/// Draining tells the other end of every projection nobody holds, once each and in the
/// order they were dropped, and forgets just those.
pub proof fn draining_releases_what_nobody_holds(end: ObjectsModel)
    requires
        end.wf(),
    ensures
        end.drained().outbound == end.outbound + end.releases.map_values(
            |id: u64| FrameModel::Release { target: id },
        ),
        end.drained().releases.len() == 0,
        forall|id: u64| #[trigger]
            end.drained().projections.contains_key(id) <==> end.projections.contains_key(id)
                && end.projections[id].handles > 0,
        end.drained().wf(),
{
    let start = ObjectsModel { releases: Seq::empty(), ..end };
    assert forall|i: int| 0 <= i < end.releases.len() implies start.projections.contains_key(
        #[trigger] end.releases[i],
    ) by {
        assert(end.releases.contains(end.releases[i]));
    }
    start.lemma_released_all(end.releases);
    end.lemma_drained_wf();
    assert forall|id: u64| #[trigger]
        end.drained().projections.contains_key(id) <==> end.projections.contains_key(id)
            && end.projections[id].handles > 0 by {
        assert(end.releases.contains(id) == end.releases.to_set().contains(id));
    }
}

/// Frames for a promised object wait for it, all of them and in order, while its
/// allocating call has not answered. The ids they promise wait too.
pub proof fn promised_frames_wait_in_order(
    end: ObjectsModel,
    promised: u64,
    frames: Seq<FrameModel>,
)
    requires
        end.pending_promises.contains_key(promised),
        forall|i: int|
            0 <= i < frames.len() ==> (#[trigger] frames[i]).target() == Some(promised),
    ensures
        ({
            let expecting = end.promises_expected(frames);
            &&& end.delivered_all(frames) == (ObjectsModel {
                pending_promises: expecting.pending_promises.insert(
                    promised,
                    end.pending_promises[promised] + frames,
                ),
                ..end
            })
            &&& end.delivered_all(frames).promise_queue(promised)
                == end.pending_promises[promised] + frames
            &&& end.delivered_all(frames).outbound == end.outbound
        }),
    decreases frames.len(),
{
    lemma_promises_expected(end, frames);
    let expecting = end.promises_expected(frames);
    if frames.len() == 0 {
        assert(end.pending_promises[promised] + frames =~= end.pending_promises[promised]);
    } else {
        let rest = frames.drop_last();
        let before = end.promises_expected(rest);
        promised_frames_wait_in_order(end, promised, rest);
        lemma_promises_expected(end, rest);
        assert(frames[frames.len() - 1] == frames.last());
        assert((end.pending_promises[promised] + rest).push(frames.last())
            =~= end.pending_promises[promised] + frames);
        assert(end.delivered_all(rest).promise_expected(frames.last()).pending_promises
            =~= before.promise_expected(frames.last()).pending_promises.insert(
            promised,
            end.pending_promises[promised] + rest,
        ));
    }
    assert(end.delivered_all(frames) =~= (ObjectsModel {
        pending_promises: expecting.pending_promises.insert(
            promised,
            end.pending_promises[promised] + frames,
        ),
        ..end
    }));
}

/// Promises chain: where a call that waits for one promised id promises another, the frames
/// for that one wait behind it, in order, and nothing is sent. If the first promise fails,
/// the call does, the other promise with it, and what waited for it is handed out.
pub proof fn promises_chain(
    end: ObjectsModel,
    first: u64,
    call: CallModel,
    second: u64,
    frames: Seq<FrameModel>,
    request: Option<u64>,
    reason: Seq<char>,
)
    requires
        end.pending_promises.contains_key(first),
        call.target == first,
        call.promised == Some(second),
        second != ROOT_ADDRESS,
        second != first,
        forall|i: int|
            0 <= i < frames.len() ==> (#[trigger] frames[i]).target() == Some(second),
    ensures
        ({
            let waiting = end.delivered(FrameModel::Call(call)).delivered_all(frames);
            let failed = waiting.completed(request, Some(first), Err(reason));
            let refused = failed.delivered(FrameModel::Call(call));
            &&& waiting.promise_queue(first) == end.promise_queue(first).push(
                FrameModel::Call(call),
            )
            &&& waiting.promise_queue(second) == end.promise_queue(second) + frames
            &&& waiting.outbound == end.outbound
            &&& failed.promise_queue(second) == end.promise_queue(second) + frames
            &&& refused.failed_promises.contains_key(second)
            &&& refused.failed_promises[second] == reason
            &&& !refused.pending_promises.contains_key(second)
            &&& failed.awaiting(call) == end.promise_queue(second) + frames
            &&& frames.len() > 0 ==> failed.delivery(FrameModel::Call(call)) == (
            DeliveryModel::Redeliver(end.promise_queue(second) + frames))
        }),
{
    let early = end.delivered(FrameModel::Call(call));
    promised_frames_wait_in_order(early, second, frames);
    lemma_promises_expected(early, frames);
    let waiting = early.delivered_all(frames);
    assert(early.pending_promises.contains_key(first));
    assert(waiting.pending_promises.contains_key(first));
    assert(waiting.pending_promises.contains_key(second));
    let failed = waiting.completed(request, Some(first), Err(reason));
    assert(failed.intercepted(FrameModel::Call(call)));
    assert(failed.refuses(call));
}

/// Promise pipelining: a call that promises an id makes the id wait; once its handler
/// answers with a ref to an object homed here, calls to the promised id reach that
/// object's handler.
pub proof fn promises_become_the_object(
    end: ObjectsModel,
    call: CallModel,
    promised: u64,
    outcome: PayloadModel,
    later: CallModel,
)
    requires
        call.promised == Some(promised),
        end.delivery(FrameModel::Call(call)) is Dispatch,
        outcome.refs.len() > 0,
        end.homes.contains_key(outcome.refs[0]),
        !end.failed_promises.contains_key(promised),
        later.target == promised,
    ensures
        ({
            let waiting = end.delivered(FrameModel::Call(call));
            let settled = waiting.completed(call.request, call.promised, Ok(outcome));
            &&& waiting.delivery(FrameModel::Call(later)) is Done
            &&& settled.delivery(FrameModel::Call(later)) == (DeliveryModel::Dispatch {
                handler: end.homes[outcome.refs[0]].handler,
                call: later,
            })
            &&& settled.homes[promised].observers.len() == 0
            &&& settled.homes[promised].entity == end.homes[outcome.refs[0]].entity
        }),
{
}

/// A call to a released object sends nothing and waits for nothing.
pub proof fn released_objects_get_no_calls(
    end: ObjectsModel,
    id: u64,
    method: Seq<char>,
    payload: PayloadModel,
    receipt: Option<u64>,
    promised: Option<u64>,
)
    requires
        !end.projections.contains_key(id),
    ensures
        end.called(id, method, payload, receipt, promised) == end,
{
}

/// Requests get ids of their own: a new one is none that is still waited for.
pub proof fn requests_are_distinct(
    end: ObjectsModel,
    id: u64,
    method: Seq<char>,
    payload: PayloadModel,
    receipt: u64,
    promised: Option<u64>,
)
    requires
        end.wf(),
        end.next_request_id < u64::MAX,
        end.projections.contains_key(id),
    ensures
        ({
            let called = end.called(id, method, payload, Some(receipt), promised);
            &&& called.next_request_id == end.next_request_id + 1
            &&& !end.pending_responses.contains_key(called.next_request_id)
            &&& called.pending_responses == end.pending_responses.insert(
                called.next_request_id,
                receipt,
            )
        }),
{
}

/// A response resolves its receipt once; the same response again finds nobody waiting.
pub proof fn responses_resolve_once(end: ObjectsModel, request: u64, outcome: OutcomeModel)
    requires
        end.pending_responses.contains_key(request),
    ensures
        ({
            let response = FrameModel::Response { request, outcome };
            let resolved = end.delivered(response);
            &&& end.delivery(response) == (DeliveryModel::Resolve {
                receipt: end.pending_responses[request],
                outcome,
            })
            &&& resolved.delivery(response) == DeliveryModel::Done
            &&& resolved.delivered(response) == resolved
        }),
{
    let response = FrameModel::Response { request, outcome };
    let resolved = end.delivered(response);
    assert(resolved.delivered(response) =~= resolved);
}

/// Reads see earlier writes, by order alone: of two calls to one object, the home's handler
/// gets the one sent first before the other.
pub proof fn later_calls_follow_earlier_ones(
    caller: ObjectsModel,
    home: ObjectsModel,
    id: u64,
    write: Seq<char>,
    written: PayloadModel,
    write_receipt: Option<u64>,
    read: Seq<char>,
    asked: PayloadModel,
    read_receipt: Option<u64>,
)
    requires
        caller.projections.contains_key(id),
        caller.next_request_id + 2 <= u64::MAX,
        home.homes.contains_key(id),
        !home.pending_promises.contains_key(id),
        !home.failed_promises.contains_key(id),
    ensures
        ({
            let wrote = caller.called(id, write, written, write_receipt, None);
            let asking = wrote.called(id, read, asked, read_receipt, None);
            let first = wrote.outbound.last();
            let second = asking.outbound.last();
            let after_first = home.delivered(first);
            &&& asking.outbound == caller.outbound.push(first).push(second)
            &&& (home.delivery(first) matches DeliveryModel::Dispatch { handler, call }
                && handler == home.homes[id].handler && call.method == write && call.payload
                == written)
            &&& (after_first.delivery(second) matches DeliveryModel::Dispatch { handler, call }
                && handler == home.homes[id].handler && call.method == read && call.payload
                == asked)
        }),
{
}

/// A call between two ends: the home's handler gets the caller's method and payload, and
/// the receipt gets what the handler answered.
pub proof fn calls_round_trip(
    caller: ObjectsModel,
    home: ObjectsModel,
    id: u64,
    method: Seq<char>,
    payload: PayloadModel,
    receipt: u64,
    outcome: OutcomeModel,
)
    requires
        caller.projections.contains_key(id),
        caller.next_request_id < u64::MAX,
        home.homes.contains_key(id),
        !home.pending_promises.contains_key(id),
        !home.failed_promises.contains_key(id),
    ensures
        ({
            let waiting = caller.called(id, method, payload, Some(receipt), None);
            let frame = waiting.outbound.last();
            let answered = home.delivered(frame).completed(
                Some(waiting.next_request_id),
                None,
                outcome,
            );
            let answer = answered.outbound.last();
            &&& home.delivery(frame) == (DeliveryModel::Dispatch {
                handler: home.homes[id].handler,
                call: CallModel {
                    target: id,
                    request: Some(waiting.next_request_id),
                    method,
                    payload,
                    promised: None,
                },
            })
            &&& waiting.delivery(answer) == (DeliveryModel::Resolve { receipt, outcome })
            &&& waiting.delivered(answer).pending_responses.dom()
                == caller.pending_responses.dom().remove(waiting.next_request_id)
        }),
{
    let waiting = caller.called(id, method, payload, Some(receipt), None);
    let frame = waiting.outbound.last();
    let answered = home.delivered(frame).completed(Some(waiting.next_request_id), None, outcome);
    let answer = answered.outbound.last();
    assert(waiting.delivered(answer).pending_responses.dom()
        =~= caller.pending_responses.dom().remove(waiting.next_request_id));
}

/// Reactivity between two ends: the subscription a listener sends makes the home's next
/// notify reach the listener's own signal.
pub proof fn notifies_reach_the_signal(
    listener: ObjectsModel,
    home: ObjectsModel,
    id: u64,
    signal: u64,
    observer: u64,
    method: Seq<char>,
    payload: PayloadModel,
)
    requires
        listener.projections.contains_key(id),
        !listener.pending_promises.contains_key(observer),
        !listener.failed_promises.contains_key(observer),
        home.homes.contains_key(id),
        !home.pending_promises.contains_key(id),
        !home.failed_promises.contains_key(id),
    ensures
        ({
            let listening = listener.listening(id, signal, observer);
            let subscribed = home.delivered(listening.outbound.last());
            let frame = subscribed.notified(id, method, payload).outbound.last();
            &&& listening.delivery(subscribed.outbound.last()) == (DeliveryModel::Dispatch {
                handler: Handler::Observer(signal),
                call: CallModel {
                    target: observer,
                    request: None,
                    method: notify_event(),
                    payload: empty_payload(),
                    promised: None,
                },
            })
            &&& listening.delivery(frame) == (DeliveryModel::Dispatch {
                handler: Handler::Observer(signal),
                call: CallModel {
                    target: observer,
                    request: None,
                    method,
                    payload,
                    promised: None,
                },
            })
        }),
{
    let listening = listener.listening(id, signal, observer);
    let subscribed = home.delivered(listening.outbound.last());
    observers_hear_everything(home, id, observer, method, payload);
    assert(subscribed.notified(id, method, payload).outbound.last() == event_call(
        observer,
        method,
        payload,
    ));
}

/// Releasing a projection takes its hidden observer object with it, so a late notify from
/// the home is answered like any call to an unknown object.
pub proof fn observers_go_with_their_projection(end: ObjectsModel, id: u64)
    requires
        end.wf(),
        end.projections.contains_key(id),
    ensures
        !end.released(id).projections.contains_key(id),
        end.projections[id].signal matches Some(link) ==> !end.released(id).homes.contains_key(
            link.observer,
        ),
        end.released(id).outbound == end.outbound.push(FrameModel::Release { target: id }),
{
}

/// A shared object is what it was shared as: its interface, its handler and its entity, with
/// nobody observing it yet. A kept entity is there whatever else lives; one that is not kept
/// is there just while something else keeps it alive. The other end is told nothing.
pub proof fn shares_are_held_as_asked(
    end: ObjectsModel,
    id: u64,
    interface: Seq<char>,
    handler: u64,
    entity: EntityToken,
    keep_alive: bool,
    live: Seq<EntityToken>,
    kind: u64,
)
    ensures
        ({
            let after = end.installed(id, shared_home(interface, handler, entity, keep_alive));
            let there = keep_alive || live.contains(entity);
            &&& after.homes.contains_key(id)
            &&& after.homes[id].interface == interface
            &&& after.homes[id].handler == Handler::Object(handler)
            &&& after.homes[id].observers.len() == 0
            &&& after.homes[id].resubscribe
            &&& there ==> after.answering(id, live) == Some(entity)
            &&& !there ==> after.answering(id, live) is None
            &&& there && kind == entity.kind ==> after.entity_at(id, kind, live) == Some(entity)
            &&& !there || kind != entity.kind ==> after.entity_at(id, kind, live) is None
            &&& after.outbound == end.outbound
            &&& after.projections == end.projections
            &&& forall|other: u64|
                other != id ==> after.homes.contains_key(other) == end.homes.contains_key(other)
                    && #[trigger] after.homes[other] == end.homes[other]
        }),
{
}

/// Once released by the other end, an entity is there just while something else keeps it
/// alive. A hidden observer object has none.
pub proof fn released_entities_are_not_kept(entity: EntityToken, live: Seq<EntityToken>)
    ensures
        HomeEntity::Strong(entity).upgraded(live) == Some(entity),
        HomeEntity::Strong(entity).weakened().upgraded(live) is Some <==> live.contains(entity),
        HomeEntity::Strong(entity).weakened().upgraded(live) matches Some(found) ==> found
            == entity,
        HomeEntity::Weak(entity).upgraded(live) is Some <==> live.contains(entity),
        HomeEntity::Weak(entity).upgraded(live) matches Some(found) ==> found == entity,
        HomeEntity::Weak(entity).weakened() == HomeEntity::Weak(entity),
        HomeEntity::Absent.upgraded(live) is None,
        HomeEntity::Absent.weakened() == HomeEntity::Absent,
{
}

/// A call crosses as it was made: one frame, behind all sent before, with the callee, the
/// method, the payload and the promised id. It has a request id just where somebody waits,
/// and then that one waits on it.
pub proof fn calls_carry_what_was_said(
    end: ObjectsModel,
    id: u64,
    method: Seq<char>,
    payload: PayloadModel,
    receipt: Option<u64>,
    promised: Option<u64>,
)
    requires
        end.projections.contains_key(id),
        end.next_request_id < u64::MAX,
    ensures
        ({
            let after = end.called(id, method, payload, receipt, promised);
            &&& after.outbound.len() == end.outbound.len() + 1
            &&& after.outbound.drop_last() == end.outbound
            &&& after.outbound.last() matches FrameModel::Call(call)
            &&& call.target == id
            &&& call.method == method
            &&& call.payload.bytes == payload.bytes
            &&& call.payload.refs == payload.refs
            &&& call.promised == promised
            &&& call.request is Some <==> receipt is Some
            &&& receipt matches Some(receipt) ==> {
                &&& after.pending_responses.contains_key(call.request->0)
                &&& after.pending_responses[call.request->0] == receipt
                &&& call.request->0 == end.next_request_id + 1
            }
            &&& receipt is None ==> after.pending_responses == end.pending_responses
            &&& after.homes == end.homes
            &&& after.projections == end.projections
        }),
{
    let after = end.called(id, method, payload, receipt, promised);
    assert(after.outbound.drop_last() =~= end.outbound);
}

/// The first listener to an object gets a signal fed by a hidden observer object, and the
/// home is asked to notify that one; what the projection is called and how many hold it
/// stays.
pub proof fn listeners_subscribe_their_own_observer(
    end: ObjectsModel,
    id: u64,
    signal: u64,
    observer: u64,
)
    requires
        end.projections.contains_key(id),
    ensures
        ({
            let after = end.listening(id, signal, observer);
            &&& after.projections[id].signal matches Some(link)
            &&& link.signal == signal
            &&& link.observer == observer
            &&& after.projections[id].interface == end.projections[id].interface
            &&& after.projections[id].handles == end.projections[id].handles
            &&& after.homes.contains_key(observer)
            &&& after.homes[observer].handler == Handler::Observer(signal)
            &&& after.homes[observer].entity is Absent
            &&& after.homes[observer].observers.len() == 0
            &&& after.signal_at(id) == Some(Some(signal))
            &&& after.outbound.len() == end.outbound.len() + 1
            &&& after.outbound.drop_last() == end.outbound
            &&& after.outbound.last() == (FrameModel::Subscribe { target: id, observer })
        }),
{
    let after = end.listening(id, signal, observer);
    assert(after.outbound.drop_last() =~= end.outbound);
}

/// A notify or an event is one call to each observer, in the order they subscribed, with the
/// event's name and payload; nobody waits for an answer.
pub proof fn notifies_are_told_to_each_observer(
    end: ObjectsModel,
    id: u64,
    method: Seq<char>,
    payload: PayloadModel,
    nth: int,
)
    requires
        end.homes.contains_key(id),
        0 <= nth < end.homes[id].observers.len(),
    ensures
        ({
            let after = end.notified(id, method, payload);
            let observers = end.homes[id].observers;
            &&& after.outbound.len() == end.outbound.len() + observers.len()
            &&& after.outbound.take(end.outbound.len() as int) == end.outbound
            &&& after.outbound[end.outbound.len() + nth] matches FrameModel::Call(call)
            &&& call.target == observers[nth]
            &&& call.method == method
            &&& call.payload.bytes == payload.bytes
            &&& call.payload.refs == payload.refs
            &&& call.request is None
            &&& call.promised is None
            &&& after.homes == end.homes
        }),
{
    let after = end.notified(id, method, payload);
    assert(after.outbound.take(end.outbound.len() as int) =~= end.outbound);
}

/// A new observer is listed behind the ones there are, and is told at once, by a call
/// without a payload, that the object changed.
pub proof fn new_observers_are_notified_at_once(end: ObjectsModel, target: u64, observer: u64)
    requires
        end.homes.contains_key(target),
        !end.pending_promises.contains_key(target),
        !end.failed_promises.contains_key(target),
    ensures
        ({
            let frame = FrameModel::Subscribe { target, observer };
            let after = end.delivered(frame);
            &&& after.homes[target].observers.len() == end.homes[target].observers.len() + 1
            &&& after.homes[target].observers.last() == observer
            &&& after.homes[target].observers.drop_last() == end.homes[target].observers
            &&& after.homes[target].handler == end.homes[target].handler
            &&& after.homes[target].entity == end.homes[target].entity
            &&& after.outbound.len() == end.outbound.len() + 1
            &&& after.outbound.last() matches FrameModel::Call(call)
            &&& call.target == observer
            &&& call.method == "$notify"@
            &&& call.payload.bytes.len() == 0
            &&& call.payload.refs.len() == 0
            &&& call.request is None
            &&& end.delivery(frame) is Done
        }),
{
    let frame = FrameModel::Subscribe { target, observer };
    let after = end.delivered(frame);
    assert(!end.intercepted(frame));
    assert(after.homes[target].observers.drop_last() =~= end.homes[target].observers);
}

/// An answer names the request it answers and carries what the handler returned; a call that
/// wants no answer gets none.
pub proof fn answers_name_their_request(
    end: ObjectsModel,
    request: Option<u64>,
    outcome: OutcomeModel,
)
    ensures
        request is None ==> end.responded(request, outcome) == end,
        request matches Some(asked) ==> {
            let after = end.responded(request, outcome);
            &&& after.outbound.len() == end.outbound.len() + 1
            &&& after.outbound.drop_last() == end.outbound
            &&& after.outbound.last() == (FrameModel::Response { request: asked, outcome })
            &&& after.pending_responses == end.pending_responses
        },
{
    if request is Some {
        assert(end.responded(request, outcome).outbound.drop_last() =~= end.outbound);
    }
}

/// An arriving answer is handed to the receipt that waits on its request, and to nobody
/// where none does.
pub proof fn answers_reach_their_receipt(end: ObjectsModel, request: u64, outcome: OutcomeModel)
    ensures
        ({
            let frame = FrameModel::Response { request, outcome };
            let after = end.delivered(frame);
            &&& end.pending_responses.contains_key(request) ==> {
                &&& end.delivery(frame) matches DeliveryModel::Resolve {
                    receipt,
                    outcome: resolved,
                }
                &&& receipt == end.pending_responses[request]
                &&& resolved == outcome
            }
            &&& !end.pending_responses.contains_key(request) ==> end.delivery(frame) is Done
            &&& !after.pending_responses.contains_key(request)
            &&& after.outbound == end.outbound
            &&& after.homes == end.homes
        }),
{
    assert(!end.intercepted(FrameModel::Response { request, outcome }));
}

/// A released object is forgotten, with the hidden observer object of its signal, and its
/// home is told by name.
pub proof fn releases_name_their_object(end: ObjectsModel, id: u64, other: u64)
    requires
        end.projections.contains_key(id),
    ensures
        ({
            let after = end.released(id);
            &&& !after.projections.contains_key(id)
            &&& end.projections[id].signal matches Some(link) ==> !after.homes.contains_key(
                link.observer,
            )
            &&& (end.projections[id].signal matches Some(link) ==> other != link.observer)
                && end.homes.contains_key(other) ==> after.homes.contains_key(other)
                && after.homes[other] == end.homes[other]
            &&& other != id && end.projections.contains_key(other)
                ==> after.projections.contains_key(other) && after.projections[other]
                == end.projections[other]
            &&& after.outbound.len() == end.outbound.len() + 1
            &&& after.outbound.drop_last() == end.outbound
            &&& after.outbound.last() == (FrameModel::Release { target: id })
        }),
{
    assert(end.released(id).outbound.drop_last() =~= end.outbound);
}

/// Handles are counted: connecting adds one, dropping takes one, and the projection keeps
/// the interface and the signal it has. A first connect starts with one handle and nobody
/// listening. Only the drop of the last one is queued for release.
pub proof fn handles_are_counted(end: ObjectsModel, id: u64, interface: Seq<char>)
    ensures
        ({
            let held = end.projections.contains_key(id) && end.projections[id].handles > 0;
            let more = end.connected(id, interface);
            let fewer = end.dropped(id);
            &&& more.projections.contains_key(id)
            &&& held ==> {
                &&& more.projections[id].handles == end.projections[id].handles + 1
                &&& more.projections[id].interface == end.projections[id].interface
                &&& more.projections[id].signal == end.projections[id].signal
                &&& more.outbound == end.outbound
                &&& fewer.projections[id].handles == end.projections[id].handles - 1
                &&& fewer.projections[id].interface == end.projections[id].interface
                &&& fewer.projections[id].signal == end.projections[id].signal
                &&& fewer.outbound == end.outbound
                &&& end.projections[id].handles > 1 ==> fewer.releases == end.releases
                &&& end.projections[id].handles == 1 ==> fewer.releases == end.releases.push(id)
            }
            &&& !held ==> {
                &&& more.projections[id].handles == 1
                &&& more.projections[id].interface == interface
                &&& more.projections[id].signal is None
            }
        }),
{
}

/// What fails says why. A call to an object that is not there is answered with the id it
/// was for; a promise fails with the call's own failure, with the want of a ref, or with the
/// id of the object that is not homed here. A promise that holds names the first ref.
pub proof fn failures_say_why(
    end: ObjectsModel,
    call: CallModel,
    promised: u64,
    outcome: OutcomeModel,
)
    ensures
        unknown_object(call.target) == "call to unknown object "@ + decimal_chars(
            call.target as nat,
        ),
        ({
            let after = end.promise_resolved(promised, outcome);
            let refs = (outcome->Ok_0).refs;
            let homed = outcome is Ok && refs.len() > 0 && end.homes.contains_key(refs[0]);
            &&& !after.pending_promises.contains_key(promised)
            &&& homed ==> {
                &&& after.homes.contains_key(promised)
                &&& after.homes[promised].handler == end.homes[refs[0]].handler
                &&& after.homes[promised].entity == end.homes[refs[0]].entity
                &&& after.homes[promised].interface == end.homes[refs[0]].interface
                &&& after.homes[promised].resubscribe == end.homes[refs[0]].resubscribe
                &&& after.homes[promised].observers.len() == 0
                &&& after.failed_promises == end.failed_promises
            }
            &&& !homed ==> after.homes == end.homes && after.failed_promises.contains_key(promised)
            &&& outcome matches Err(error) ==> after.failed_promises[promised] == error
            &&& outcome is Ok && refs.len() == 0 ==> after.failed_promises[promised]
                == "the call returned no ref to promise"@
            &&& outcome is Ok && refs.len() > 0 && !homed ==> after.failed_promises[promised]
                == "promised object "@ + decimal_chars(refs[0] as nat) + " is not homed here"@
        }),
{
}

/// A call to an id whose promise failed is answered with the promise's failure. A release of
/// such an id forgets the failure.
pub proof fn failed_promises_fail_their_calls(end: ObjectsModel, call: CallModel, request: u64)
    requires
        end.failed_promises.contains_key(call.target),
        !end.pending_promises.contains_key(call.target),
        call.request == Some(request),
        call.promised is None,
    ensures
        ({
            let after = end.delivered(FrameModel::Call(call));
            &&& after.outbound.len() == end.outbound.len() + 1
            &&& after.outbound.last() matches FrameModel::Response { request: answered, outcome }
            &&& answered == request
            &&& outcome matches Err(reason)
            &&& reason == end.failed_promises[call.target]
            &&& end.delivery(FrameModel::Call(call)) is Done
        }),
        !end.delivered(FrameModel::Release { target: call.target }).failed_promises.contains_key(
            call.target,
        ),
{
    assert(end.intercepted(FrameModel::Call(call)));
    assert(end.intercepted(FrameModel::Release { target: call.target }));
}

/// An id can be given to a new object where it is not the root's and neither end's object
/// has it.
pub proof fn fresh_ids_are_nobody_elses(end: ObjectsModel, id: u64)
    ensures
        end.mintable(id) <==> id != 0 && !end.homes.contains_key(id)
            && !end.projections.contains_key(id),
        ROOT_ADDRESS == 0,
        notify_event() == "$notify"@,
        awaited(Some(0)) is None,
        id != 0 ==> awaited(Some(id)) == Some(id),
        awaited(None) is None,
{
}

/// A list of entities of a kind names each home whose live entity is of that kind, once, and no
/// other.
pub proof fn entities_are_listed_by_kind(
    end: ObjectsModel,
    ids: Seq<u64>,
    kind: u64,
    live: Seq<EntityToken>,
    id: u64,
)
    requires
        end.lists_entities(ids, kind, live),
    ensures
        ids.contains(id) <==> {
            &&& end.homes.contains_key(id)
            &&& end.homes[id].entity.upgraded(live) matches Some(token)
            &&& token.kind == kind
        },
        ids.no_duplicates(),
{
    assert(ids.contains(id) <==> end.entity_at(id, kind, live) is Some);
}

/// A call that reaches nobody fails at once, and with it the id it promises: what waited for
/// that id is handed out to be delivered, in order. A call to an object that is there is for its
/// handler; one to a root that is not there yet, or to a promised object, waits.
pub proof fn refused_calls_hand_out_what_waited(end: ObjectsModel, call: CallModel, promised: u64)
    requires
        call.promised == Some(promised),
        promised != 0,
        !end.pending_promises.contains_key(call.target),
        !end.failed_promises.contains_key(call.target),
    ensures
        ({
            let delivery = end.delivery(FrameModel::Call(call));
            let waits = end.pending_promises.contains_key(promised)
                && end.pending_promises[promised].len() > 0;
            &&& end.homes.contains_key(call.target) ==> {
                &&& delivery matches DeliveryModel::Dispatch { handler, call: handed }
                &&& handler == end.homes[call.target].handler
                &&& handed == call
            }
            &&& !end.homes.contains_key(call.target) && call.target == 0 ==> delivery is Done
            &&& !end.homes.contains_key(call.target) && call.target != 0 && waits ==> {
                &&& delivery matches DeliveryModel::Redeliver(frames)
                &&& frames == end.pending_promises[promised]
            }
            &&& !end.homes.contains_key(call.target) && call.target != 0 && !waits
                ==> delivery is Done
        }),
{
    assert(!end.intercepted(FrameModel::Call(call)));
}

/// A call to an object whose promise failed hands out what waited for the id it promises; one to
/// an object whose promise is pending waits, and hands out nothing.
pub proof fn calls_to_failed_promises_hand_out_what_waited(
    end: ObjectsModel,
    call: CallModel,
    promised: u64,
)
    requires
        call.promised == Some(promised),
        promised != 0,
    ensures
        end.pending_promises.contains_key(call.target) ==> end.delivery(
            FrameModel::Call(call),
        ) is Done,
        !end.pending_promises.contains_key(call.target) && end.failed_promises.contains_key(
            call.target,
        ) && end.pending_promises.contains_key(promised) && end.pending_promises[promised].len() > 0
            ==> {
            &&& end.delivery(FrameModel::Call(call)) matches DeliveryModel::Redeliver(frames)
            &&& frames == end.pending_promises[promised]
        },
{
    if end.pending_promises.contains_key(call.target) || end.failed_promises.contains_key(
        call.target,
    ) {
        assert(end.intercepted(FrameModel::Call(call)));
    }
}

} // verus!
