//! The object model, two registries exchanging frames.

use std::collections::{BTreeMap, VecDeque};

use embedded_gpui::capabilities::{refusal, Attenuated, Audited, Fetched, Mirror};
use embedded_gpui::demo::Counter;
use embedded_gpui::frame::{frame_from_wire, frame_to_wire, Call, Frame, Payload, Response};
use embedded_gpui::membrane::{ForwardError, Revocable, Through};
use embedded_gpui::model::{EntityToken, Handler};
use embedded_gpui::registry::{observer_action, Delivery, MintError, Objects, ObserverAction};

const KIND: u64 = 7;

fn token(entity: u64) -> EntityToken {
    EntityToken { entity, kind: KIND }
}

fn number(n: u32) -> Payload {
    Payload::from_parts(serde_json::to_vec(&n).unwrap(), Vec::new())
}

fn text(message: &str) -> Payload {
    Payload::from_parts(serde_json::to_vec(message).unwrap(), Vec::new())
}

fn reference(id: u64) -> Payload {
    Payload::from_parts(b"{\"$ref\":0}".to_vec(), vec![id])
}

fn read_number(payload: &Payload) -> u32 {
    serde_json::from_slice(&payload.bytes).unwrap()
}

fn read_text(payload: &Payload) -> String {
    serde_json::from_slice(&payload.bytes).unwrap()
}

type Served = Option<Result<Payload, String>>;

/// What an end was told while frames were applied to it.
#[derive(Default)]
struct Heard {
    resolved: BTreeMap<u64, Result<Payload, String>>,
    notified: Vec<u64>,
    events: Vec<(u64, String, u32)>,
}

/// Carry the frames of one end to the other, as they lie on the wire, and apply them there.
fn carry(
    from: &mut Objects,
    to: &mut Objects,
    heard: &mut Heard,
    serve: &mut dyn FnMut(&mut Objects, u64, &Call) -> Served,
) {
    from.drain_releases();
    let mut frames: VecDeque<Frame> = from.take_outbound().into();
    while let Some(frame) = frames.pop_front() {
        apply(to, frame_from_wire(frame_to_wire(frame)), heard, serve, &mut frames);
    }
}

fn apply(
    to: &mut Objects,
    frame: Frame,
    heard: &mut Heard,
    serve: &mut dyn FnMut(&mut Objects, u64, &Call) -> Served,
    frames: &mut VecDeque<Frame>,
) {
    match to.deliver(frame) {
        Delivery::Done => {}
        Delivery::Resolve { receipt, outcome } => {
            heard.resolved.insert(receipt, outcome);
        }
        Delivery::Dispatch { handler: Handler::Observer(signal), call } => {
            match observer_action(&call.method, &call.payload) {
                ObserverAction::Notify => heard.notified.push(signal),
                ObserverAction::Emit { name, payload } => {
                    heard.events.push((signal, name, read_number(&payload)))
                }
            }
        }
        Delivery::Redeliver(waiting) => {
            for waiting in waiting.into_iter().rev() {
                frames.push_front(waiting);
            }
        }
        Delivery::Dispatch { handler: Handler::Object(handler), call } => {
            if let Some(outcome) = serve(to, handler, &call) {
                let resolution = to.complete(call.request, call.promised, outcome);
                for waiting in resolution.queued.into_iter().rev() {
                    frames.push_front(waiting);
                }
            }
        }
    }
}

fn nobody(_: &mut Objects, _: u64, _: &Call) -> Served {
    None
}

fn ok_number(outcome: &Result<Payload, String>) -> u32 {
    read_number(outcome.as_ref().expect("a response"))
}

/// A counter homed at one end, answered by handler 1 and found through the root.
struct CounterHome {
    id: Option<u64>,
    count: u32,
}

impl CounterHome {
    fn new() -> Self {
        CounterHome { id: None, count: 0 }
    }

    fn serve(&mut self, objects: &mut Objects, handler: u64, call: &Call) -> Served {
        match (handler, call.method.as_str()) {
            (0, "counter") => {
                let id = match self.id {
                    Some(id) => id,
                    None => objects.share("TestCounterApi", 1, token(1), true).unwrap(),
                };
                self.id = Some(id);
                Some(Ok(reference(id)))
            }
            (1, "increment") => {
                let tens_before = self.count / 10;
                self.count += read_number(&call.payload);
                if self.count / 10 > tens_before {
                    objects.notify_observers(call.target, "counter_milestone", &number(self.count));
                }
                objects.notify_observers(call.target, "$notify", &Payload::empty());
                Some(Ok(number(self.count)))
            }
            (1, "count") => Some(Ok(number(self.count))),
            (_, other) => Some(Err(format!("no method {other}"))),
        }
    }
}

/// A host connected to the counter of a guest.
fn counter_ends() -> (Objects, Objects, CounterHome, u64) {
    let mut host = Objects::new();
    let mut guest = Objects::new();
    let mut home = CounterHome::new();
    let mut heard = Heard::default();
    assert!(guest.share_root("TestPlugin", 0, token(0), true).is_empty());
    let root = host.root("TestPlugin");
    assert!(host.send(root.id(), "counter", Payload::empty(), Some(1), None));
    carry(&mut host, &mut guest, &mut heard, &mut |o, h, c| home.serve(o, h, c));
    carry(&mut guest, &mut host, &mut heard, &mut nobody);
    let counter = heard.resolved[&1].as_ref().unwrap().refs[0];
    assert_eq!(host.connect_id(counter, "TestCounterApi").id(), counter);
    (host, guest, home, counter)
}

#[test]
fn test_roots_bootstrap_both_directions() {
    let mut host = Objects::new();
    let mut guest = Objects::new();
    let mut heard_host = Heard::default();
    let mut heard_guest = Heard::default();
    host.share_root("TestHost", 0, token(0), true);
    guest.share_root("TestPlugin", 0, token(0), true);
    let plugin = host.root("TestPlugin");
    let of_host = guest.root("TestHost");

    // The plugin's handler asks the host's root, and answers when that answers.
    host.send(plugin.id(), "ping_host", text("hello"), Some(5), None);
    let mut waiting = None;
    carry(&mut host, &mut guest, &mut heard_guest, &mut |objects, _, call| {
        waiting = call.request;
        objects.send(of_host.id(), "ping", call.payload.duplicate(), Some(9), None);
        None
    });
    carry(&mut guest, &mut host, &mut heard_host, &mut |_, _, call| {
        Some(Ok(text(&format!("pong: {}", read_text(&call.payload)))))
    });
    carry(&mut host, &mut guest, &mut heard_guest, &mut nobody);
    guest.complete(waiting, None, heard_guest.resolved.remove(&9).unwrap());
    carry(&mut guest, &mut host, &mut heard_host, &mut nobody);
    assert_eq!(read_text(heard_host.resolved[&5].as_ref().unwrap()), "pong: hello");
}

#[test]
fn test_bootstraps_may_race() {
    let mut host = Objects::new();
    let mut guest = Objects::new();
    let mut heard = Heard::default();
    let of_host = guest.root("TestHost");
    guest.send(of_host.id(), "ping", text("first"), Some(1), None);
    guest.send(of_host.id(), "ping", text("late"), Some(2), None);
    carry(&mut guest, &mut host, &mut heard, &mut nobody);
    assert!(host.take_outbound().is_empty());

    // The queued traffic comes back in order when the root is installed.
    let queued = host.share_root("TestHost", 0, token(0), true);
    assert_eq!(queued.len(), 2);
    let mut rest = VecDeque::new();
    for frame in queued {
        apply(
            &mut host,
            frame,
            &mut heard,
            &mut |_, _, call| Some(Ok(text(&format!("pong: {}", read_text(&call.payload))))),
            &mut rest,
        );
    }
    carry(&mut host, &mut guest, &mut heard, &mut nobody);
    assert_eq!(read_text(heard.resolved[&1].as_ref().unwrap()), "pong: first");
    assert_eq!(read_text(heard.resolved[&2].as_ref().unwrap()), "pong: late");
}

#[test]
fn test_send_is_read_your_writes_by_ordering() {
    let (mut host, mut guest, mut home, counter) = counter_ends();
    let mut heard = Heard::default();
    host.send(counter, "increment", number(3), Some(1), None);
    host.send(counter, "count", Payload::empty(), Some(2), None);
    carry(&mut host, &mut guest, &mut heard, &mut |o, h, c| home.serve(o, h, c));
    carry(&mut guest, &mut host, &mut heard, &mut nobody);
    assert_eq!(ok_number(&heard.resolved[&1]), 3);
    assert_eq!(ok_number(&heard.resolved[&2]), 3);
    // A read that is asked for once the write is acknowledged sees it too.
    host.send(counter, "count", Payload::empty(), Some(3), None);
    carry(&mut host, &mut guest, &mut heard, &mut |o, h, c| home.serve(o, h, c));
    carry(&mut guest, &mut host, &mut heard, &mut nobody);
    assert_eq!(ok_number(&heard.resolved[&3]), 3);
}

#[test]
fn releases_of_the_root_wait_for_it_too() {
    let mut host = Objects::new();
    assert_eq!(host.deliver(Frame::Subscribe { target: 0, observer: 9 }), Delivery::Done);
    assert_eq!(host.deliver(Frame::Release { target: 0 }), Delivery::Done);
    assert!(host.take_outbound().is_empty());
    let queued = host.share_root("TestHost", 0, token(0), true);
    assert_eq!(
        queued,
        vec![Frame::Subscribe { target: 0, observer: 9 }, Frame::Release { target: 0 }]
    );
    for frame in queued {
        host.deliver(frame);
    }
    // The subscription was answered, and ended with the release; so did the root's keeping.
    assert_eq!(host.take_outbound().len(), 1);
    host.notify_observers(0, "$notify", &Payload::empty());
    assert!(host.take_outbound().is_empty());
    assert_eq!(host.answering_entity(0, &Vec::new()), Err("entity dropped".to_string()));
}

#[test]
fn promises_of_the_root_may_race_too() {
    let mut host = Objects::new();
    let mut guest = Objects::new();
    let mut factory = Factory::default();
    let mut heard = Heard::default();
    // The host asks for an item and uses it before the guest has a root at all.
    let root = host.root("FactoryApi");
    let item = host.promise_call(root.id(), "create", text("early"), 1, "ItemApi").unwrap();
    host.send(item.id(), "bump", Payload::empty(), Some(2), None);
    host.send(item.id(), "bump", Payload::empty(), Some(3), None);
    carry(&mut host, &mut guest, &mut heard, &mut nobody);
    assert!(guest.take_outbound().is_empty(), "nothing is refused");

    let mut frames: VecDeque<Frame> = guest.share_root("FactoryApi", 2, token(2), true).into();
    assert_eq!(frames.len(), 1);
    while let Some(frame) = frames.pop_front() {
        let mut waiting = VecDeque::new();
        apply(
            &mut guest,
            frame,
            &mut heard,
            &mut |o, h, c| {
                // The promised id is the item's second one.
                if c.method == "bump" {
                    let made = *factory.items.keys().next().unwrap();
                    let item = factory.items.get_mut(&made).unwrap();
                    item.1 += 1;
                    return Some(Ok(number(item.1)));
                }
                factory.serve(o, h, c)
            },
            &mut waiting,
        );
        while let Some(frame) = waiting.pop_back() {
            frames.push_front(frame);
        }
    }
    carry(&mut guest, &mut host, &mut heard, &mut nobody);
    assert!(heard.resolved[&1].is_ok());
    assert_eq!(ok_number(&heard.resolved[&2]), 1);
    assert_eq!(ok_number(&heard.resolved[&3]), 2);
}

#[test]
fn promises_chain() {
    // An item is asked for, a part of it, and something of the part, all at once; the home
    // takes its time over the item.
    let ends = || {
        let mut host = Objects::new();
        let mut guest = Objects::new();
        guest.share_root("FactoryApi", 2, token(2), true);
        let root = host.root("FactoryApi");
        let item = host.promise_call(root.id(), "create", text("x"), 1, "ItemApi").unwrap();
        let part = host.promise_call(item.id(), "part", Payload::empty(), 2, "ItemApi").unwrap();
        host.send(part.id(), "bump", Payload::empty(), Some(3), None);
        let mut asked = None;
        let mut heard = Heard::default();
        carry(&mut host, &mut guest, &mut heard, &mut |_, _, call| {
            assert_eq!(call.method, "create");
            asked = Some((call.request, call.promised));
            None
        });
        assert!(guest.take_outbound().is_empty(), "nothing is refused");
        (host, guest, asked.unwrap())
    };

    let (mut host, mut guest, (request, promised)) = ends();
    let mut heard = Heard::default();
    let real = guest.share("ItemApi", 3, token(100), true).unwrap();
    let mut frames: VecDeque<Frame> =
        guest.complete(request, promised, Ok(reference(real))).queued.into();
    assert_eq!(frames.len(), 1);
    while let Some(frame) = frames.pop_front() {
        let mut waiting = VecDeque::new();
        apply(
            &mut guest,
            frame,
            &mut heard,
            &mut |objects, _, call| match call.method.as_str() {
                "part" => Some(Ok(reference(objects.share("ItemApi", 3, token(101), true).unwrap()))),
                _ => Some(Ok(number(1))),
            },
            &mut waiting,
        );
        while let Some(frame) = waiting.pop_back() {
            frames.push_front(frame);
        }
    }
    carry(&mut guest, &mut host, &mut heard, &mut nobody);
    assert_eq!(ok_number(&heard.resolved[&3]), 1);

    // If there is no item, there is no part either, and the reason is the item's.
    let (mut host, mut guest, (request, promised)) = ends();
    let mut heard = Heard::default();
    let failure = Err("out of stock".to_string());
    let mut frames: VecDeque<Frame> = guest.complete(request, promised, failure).queued.into();
    while let Some(frame) = frames.pop_front() {
        let mut waiting = VecDeque::new();
        apply(&mut guest, frame, &mut heard, &mut nobody, &mut waiting);
        while let Some(frame) = waiting.pop_back() {
            frames.push_front(frame);
        }
    }
    carry(&mut guest, &mut host, &mut heard, &mut nobody);
    for receipt in [1, 2, 3] {
        assert_eq!(heard.resolved[&receipt], Err("out of stock".to_string()));
    }
}

#[test]
fn a_promise_of_an_unknown_object_fails() {
    let mut host = Objects::new();
    let call = |target: u64, promised: Option<u64>| {
        Frame::Call(Call {
            target,
            request: Some(target),
            method: "create".to_string(),
            payload: Payload::empty(),
            promised,
        })
    };
    let refused = |request: u64| {
        Frame::Response(Response {
            request,
            outcome: Err("call to unknown object 70".to_string()),
        })
    };
    assert_eq!(host.deliver(call(70, Some(71))), Delivery::Done);
    assert_eq!(host.deliver(call(71, None)), Delivery::Done);
    assert_eq!(host.take_outbound(), vec![refused(70), refused(71)]);
    // Until the caller releases the id.
    assert_eq!(host.deliver(Frame::Release { target: 71 }), Delivery::Done);
    assert_eq!(host.deliver(call(71, None)), Delivery::Done);
    assert_ne!(host.take_outbound(), vec![refused(71)]);
}

#[test]
fn any_number_of_handles_is_released_once() {
    let mut host = Objects::new();
    assert!(host.can_hold(5) && host.can_request());
    let first = host.connect_id(5, "ItemApi");
    let second = host.connect_id(5, "ItemApi");
    let third = host.clone_remote(&first);
    host.drop_remote(second);
    let fourth = host.clone_remote(&third);
    host.drop_remote(first);
    host.drop_remote(third);
    host.drain_releases();
    assert!(host.take_outbound().is_empty());
    host.drop_remote(fourth);
    host.drain_releases();
    host.drain_releases();
    assert_eq!(host.take_outbound(), vec![Frame::Release { target: 5 }]);
}

#[test]
fn test_calls_resolve_with_responses_in_order() {
    let (mut host, mut guest, mut home, counter) = counter_ends();
    let mut heard = Heard::default();
    host.send(counter, "increment", number(2), Some(1), None);
    host.send(counter, "increment", number(5), Some(2), None);
    carry(&mut host, &mut guest, &mut heard, &mut |o, h, c| home.serve(o, h, c));
    carry(&mut guest, &mut host, &mut heard, &mut nobody);
    assert_eq!(ok_number(&heard.resolved[&1]), 2);
    assert_eq!(ok_number(&heard.resolved[&2]), 7);
}

#[test]
fn test_mirror_keeps_an_observable_local_copy() {
    let (mut host, mut guest, mut home, counter) = counter_ends();
    let mut heard = Heard::default();
    // The mirror listens, and its first fetch goes out with it.
    let remote = host.connect_id(counter, "CounterApi");
    let mut mirror: Mirror<u32> =
        Mirror::new(remote, "count", Payload::empty(), 1, &mut host).unwrap();
    assert_eq!(mirror.latest(), None);
    carry(&mut host, &mut guest, &mut heard, &mut |o, h, c| home.serve(o, h, c));
    carry(&mut guest, &mut host, &mut heard, &mut nobody);
    // The signal is named by the object it is of.
    assert_eq!(heard.notified, vec![counter]);
    assert!(!mirror.refresh(2, &mut host), "a fetch is in flight already");
    assert!(!mirror.refresh(2, &mut host));
    assert!(host.take_outbound().is_empty());
    let value = ok_number(&heard.resolved.remove(&1).unwrap());
    let fetched = mirror.fetched(Ok(value), 2, &mut host);
    assert_eq!(fetched, Fetched { notify: true, again: true });
    assert_eq!(mirror.latest(), Some(&0));
    carry(&mut host, &mut guest, &mut heard, &mut |o, h, c| home.serve(o, h, c));
    carry(&mut guest, &mut host, &mut heard, &mut nobody);
    let value = ok_number(&heard.resolved.remove(&2).unwrap());
    let fetched = mirror.fetched(Ok(value), 3, &mut host);
    assert_eq!(fetched, Fetched { notify: true, again: false });
    assert!(host.take_outbound().is_empty());

    host.send(counter, "increment", number(4), Some(4), None);
    carry(&mut host, &mut guest, &mut heard, &mut |o, h, c| home.serve(o, h, c));
    carry(&mut guest, &mut host, &mut heard, &mut nobody);
    assert_eq!(heard.notified, vec![counter, counter]);
    assert!(mirror.refresh(5, &mut host));
    carry(&mut host, &mut guest, &mut heard, &mut |o, h, c| home.serve(o, h, c));
    carry(&mut guest, &mut host, &mut heard, &mut nobody);
    mirror.fetched(Ok(ok_number(&heard.resolved[&5])), 6, &mut host);
    assert_eq!(mirror.latest(), Some(&4));
    // A failure leaves the last value.
    assert!(mirror.refresh(7, &mut host));
    let fetched = mirror.fetched(Err("gone".to_string()), 8, &mut host);
    assert_eq!(fetched, Fetched { notify: false, again: false });
    assert_eq!(mirror.latest(), Some(&4));
}

#[test]
fn test_events_cross_the_boundary() {
    let (mut host, mut guest, mut home, counter) = counter_ends();
    let mut heard = Heard::default();
    host.signal_for(counter, 50).unwrap();
    host.send(counter, "increment", number(7), Some(1), None);
    carry(&mut host, &mut guest, &mut heard, &mut |o, h, c| home.serve(o, h, c));
    carry(&mut guest, &mut host, &mut heard, &mut nobody);
    assert!(heard.events.is_empty());
    host.send(counter, "increment", number(5), Some(2), None);
    carry(&mut host, &mut guest, &mut heard, &mut |o, h, c| home.serve(o, h, c));
    carry(&mut guest, &mut host, &mut heard, &mut nobody);
    assert_eq!(heard.events, vec![(50, "counter_milestone".to_string(), 12)]);
    // A second listener shares the signal, and nothing more is sent.
    assert_eq!(host.signal_for(counter, 51), Ok(Some(50)));
    assert!(host.take_outbound().is_empty());
}

/// A factory of labelled items, each behind handler 3.
#[derive(Default)]
struct Factory {
    items: BTreeMap<u64, (String, u32)>,
    live: Vec<EntityToken>,
}

impl Factory {
    fn serve(&mut self, objects: &mut Objects, _: u64, call: &Call) -> Served {
        match call.method.as_str() {
            "create" => {
                let entity = token(100 + self.items.len() as u64);
                let id = objects.share("ItemApi", 3, entity, true).unwrap();
                self.items.insert(id, (read_text(&call.payload), 0));
                Some(Ok(reference(id)))
            }
            method => {
                if let Err(reason) = objects.answering_entity(call.target, &self.live) {
                    return Some(Err(reason));
                }
                let item = self.items.get_mut(&call.target).unwrap();
                match method {
                    "bump" => {
                        item.1 += 1;
                        Some(Ok(number(item.1)))
                    }
                    _ => {
                        let info = serde_json::to_vec(&(&item.0, item.1)).unwrap();
                        Some(Ok(Payload::from_parts(info, Vec::new())))
                    }
                }
            }
        }
    }
}

/// A host that asked the factory at the guest's root for an item with this label.
fn item_ends(label: &str) -> (Objects, Objects, Factory, u64) {
    let mut host = Objects::new();
    let mut guest = Objects::new();
    let mut factory = Factory::default();
    let mut heard = Heard::default();
    guest.share_root("FactoryApi", 2, token(2), true);
    let root = host.root("FactoryApi");
    host.send(root.id(), "create", text(label), Some(1), None);
    carry(&mut host, &mut guest, &mut heard, &mut |o, h, c| factory.serve(o, h, c));
    carry(&mut guest, &mut host, &mut heard, &mut nobody);
    let item = heard.resolved[&1].as_ref().unwrap().refs[0];
    (host, guest, factory, item)
}

/// Call a method from the host, and take the answer.
fn ask(
    host: &mut Objects,
    guest: &mut Objects,
    factory: &mut Factory,
    id: u64,
    method: &str,
    payload: Payload,
) -> Result<Payload, String> {
    let mut heard = Heard::default();
    assert!(host.send(id, method, payload, Some(1), None));
    carry(host, guest, &mut heard, &mut |o, h, c| factory.serve(o, h, c));
    carry(guest, host, &mut heard, &mut nobody);
    heard.resolved.remove(&1).expect("an answer")
}

#[test]
fn objects_test_shared_refs_build_object_graphs() {
    let (mut host, mut guest, mut factory, item) = item_ends("alpha");
    host.connect_id(item, "ItemApi");
    let bumped = ask(&mut host, &mut guest, &mut factory, item, "bump", Payload::empty());
    assert_eq!(ok_number(&bumped), 1);
    let info = ask(&mut host, &mut guest, &mut factory, item, "describe", Payload::empty());
    let info: (String, u32) = serde_json::from_slice(&info.unwrap().bytes).unwrap();
    assert_eq!(info, ("alpha".to_string(), 1));
    let second = ask(&mut host, &mut guest, &mut factory, 0, "create", text("beta"));
    assert_ne!(second.unwrap().refs[0], item);
}

#[test]
fn objects_test_dropping_last_remote_releases_the_capability() {
    let (mut host, mut guest, mut factory, item) = item_ends("ephemeral");
    let remote = host.connect_id(item, "ItemApi");
    let bumped = ask(&mut host, &mut guest, &mut factory, item, "bump", Payload::empty());
    assert_eq!(ok_number(&bumped), 1);

    // Clones share the projection: dropping one of two releases nothing.
    let sibling = host.clone_remote(&remote);
    host.drop_remote(sibling);
    host.drain_releases();
    assert!(host.take_outbound().is_empty());
    let bumped = ask(&mut host, &mut guest, &mut factory, item, "bump", Payload::empty());
    assert_eq!(ok_number(&bumped), 2);

    host.drop_remote(remote);
    host.drain_releases();
    let frames = host.take_outbound();
    assert_eq!(frames, vec![Frame::Release { target: item }]);
    for frame in frames {
        assert_eq!(guest.deliver(frame), Delivery::Done);
    }
    assert!(!host.send(item, "bump", Payload::empty(), Some(9), None), "the projection is gone");

    // Connecting the same ref again finds nobody home.
    host.connect_id(item, "ItemApi");
    let bumped = ask(&mut host, &mut guest, &mut factory, item, "bump", Payload::empty());
    assert_eq!(bumped, Err("entity dropped".to_string()));

    // Unless something else at the home keeps the entity.
    factory.live.push(token(100));
    let bumped = ask(&mut host, &mut guest, &mut factory, item, "bump", Payload::empty());
    assert_eq!(ok_number(&bumped), 3);
}

#[test]
fn objects_test_attenuation_is_a_library_pattern() {
    let (mut host, mut guest, mut factory, item) = item_ends("gamma");
    let full = host.connect_id(item, "ItemApi");
    let target = host.clone_remote(&full);
    let readonly = Attenuated::new(target, Vec::new(), &mut host).unwrap();
    let sent = host.take_outbound();
    assert!(matches!(sent[..], [Frame::Subscribe { target, .. }] if target == item));
    let denied = readonly.register("bump", &Payload::empty(), 1, &mut host);
    assert_eq!(denied, Err("method \"bump\" is not permitted by this capability".to_string()));
    assert_eq!(denied, Err(refusal("\"bump\"")));
    assert!(host.take_outbound().is_empty(), "the item never hears of it");

    let bumped = ask(&mut host, &mut guest, &mut factory, item, "bump", Payload::empty());
    assert_eq!(ok_number(&bumped), 1);

    let target = host.clone_remote(&full);
    let writable = Attenuated::new(target, vec!["bump".to_string()], &mut host).unwrap();
    assert!(host.take_outbound().is_empty(), "the item is listened to already");
    let mut heard = Heard::default();
    assert_eq!(writable.register("bump", &number(8), 6, &mut host), Ok(()));
    carry(&mut host, &mut guest, &mut heard, &mut |o, h, c| {
        assert_eq!(c.payload, number(8));
        factory.serve(o, h, c)
    });
    carry(&mut guest, &mut host, &mut heard, &mut nobody);
    assert_eq!(ok_number(&heard.resolved[&6]), 2);
}

#[test]
fn objects_test_audited_wrapper_keeps_a_ledger() {
    let (mut host, mut guest, mut factory, item) = item_ends("ledgered");
    let remote = host.connect_id(item, "ItemApi");
    let target = host.clone_remote(&remote);
    let mut audited = Audited::new(target, &mut host).unwrap();
    for round in 0..2u64 {
        let mut heard = Heard::default();
        let index = audited.register("bump", &number(0), round, &mut host);
        assert_eq!(audited.records()[index].completed, None);
        carry(&mut host, &mut guest, &mut heard, &mut |o, h, c| factory.serve(o, h, c));
        carry(&mut guest, &mut host, &mut heard, &mut nobody);
        audited.completed(index, heard.resolved[&round].is_ok());
    }
    assert_eq!(audited.records().len(), 2);
    for record in audited.records() {
        assert_eq!(record.method, "bump");
        assert!(record.payload_len > 0);
        assert!(record.refs.is_empty());
        assert_eq!(record.completed, Some(true));
    }
    assert_eq!(factory.items[&item].1, 2);
}

#[test]
fn ledgers_keep_their_records_in_place() {
    let (mut host, _, _, item) = item_ends("ledgered");
    let target = host.connect_id(item, "ItemApi");
    let mut audited = Audited::new(target, &mut host).unwrap();
    let first = audited.register("bump", &number(1), 1, &mut host);
    let second = audited.register("describe", &number(22), 2, &mut host);
    audited.completed(second, false);
    let third = audited.register("bump", &number(333), 3, &mut host);
    audited.completed(first, true);
    assert_eq!((first, second, third), (0, 1, 2));
    let kept: Vec<_> = audited
        .records()
        .iter()
        .map(|record| (record.method.as_str(), record.payload_len, record.completed))
        .collect();
    assert_eq!(
        kept,
        vec![("bump", 1, Some(true)), ("describe", 2, Some(false)), ("bump", 3, None)]
    );
}

/// A vault homed at the host (handler 4) whose key (handler 5) it hands out; the guest
/// guards it with a membrane behind handler 6.
struct Guarded {
    host: Objects,
    guest: Objects,
    vault: u64,
    key: Option<u64>,
    membrane: Revocable,
    guard: u64,
}

impl Guarded {
    fn new() -> Self {
        let mut host = Objects::new();
        let mut guest = Objects::new();
        let vault = host.share("VaultApi", 4, token(4), true).unwrap();
        let inner = guest.connect_id(vault, "VaultApi");
        let membrane = Revocable::new(inner, 7, KIND, &mut guest).unwrap();
        let guard = guest.share_with("opaque", 6, token(6)).unwrap();
        host.connect_id(guard, "VaultApi");
        Guarded { host, guest, vault, key: None, membrane, guard }
    }

    /// Guard the same vault once more.
    fn guard_again(&mut self) {
        let inner = self.guest.connect_id(self.vault, "VaultApi");
        self.membrane = Revocable::new(inner, 7, KIND, &mut self.guest).unwrap();
        self.guard = self.guest.share_with("opaque", 6, token(6)).unwrap();
        self.host.connect_id(self.guard, "VaultApi");
    }

    /// Call a method of the guard, or of a wrapper it minted, from the host.
    fn call(&mut self, target: u64, method: &str) -> Result<Payload, String> {
        let mut heard = Heard::default();
        let mut at_guest = Heard::default();
        assert!(self.host.send(target, method, Payload::empty(), Some(1), None));
        let guard = self.guard;
        let membrane = &mut self.membrane;
        let mut waiting = None;
        carry(&mut self.host, &mut self.guest, &mut at_guest, &mut |objects, _, call| {
            let through = if call.target == guard {
                Through::Root
            } else {
                Through::Wrapper(call.target)
            };
            if call.method == "revoke" {
                membrane.revoke(objects);
                return Some(Ok(Payload::empty()));
            }
            match membrane.register(through, &call.method, &call.payload, 2, objects) {
                Ok(()) => {
                    waiting = call.request;
                    None
                }
                Err(refused) => Some(Err(refused.message())),
            }
        });
        let key = &mut self.key;
        carry(&mut self.guest, &mut self.host, &mut heard, &mut |objects, handler, call| {
            match (handler, call.method.as_str()) {
                (4, "read") => Some(Ok(text("swordfish"))),
                (4, "key") => {
                    let id = match *key {
                        Some(id) => id,
                        None => objects.share("KeyApi", 5, token(5), true).unwrap(),
                    };
                    *key = Some(id);
                    Some(Ok(reference(id)))
                }
                (5, "unlock") => Some(Ok(text("opened"))),
                other => panic!("{other:?}"),
            }
        });
        if waiting.is_some() {
            carry(&mut self.host, &mut self.guest, &mut at_guest, &mut nobody);
            let inner = at_guest.resolved.remove(&2).unwrap();
            let answer = self.membrane.respond(inner, &mut self.guest).unwrap();
            self.guest.complete(waiting, None, answer);
            carry(&mut self.guest, &mut self.host, &mut heard, &mut nobody);
        }
        heard.resolved.remove(&1).expect("an answer")
    }
}

#[test]
fn objects_test_caretaker_membrane_forwards_and_revokes() {
    let mut world = Guarded::new();
    let guard = world.guard;
    assert_ne!(guard, world.vault);
    assert_eq!(read_text(&world.call(guard, "read").unwrap()), "swordfish");
    assert!(!world.membrane.is_revoked());
    assert!(world.host.answering_entity(world.vault, &Vec::new()).is_ok());

    world.call(guard, "revoke").unwrap();
    assert!(world.membrane.is_revoked());
    assert_eq!(world.call(guard, "read"), Err("capability revoked".to_string()));

    // The vault's home was told to let it go: nothing keeps it alive any more.
    assert_eq!(
        world.host.answering_entity(world.vault, &Vec::new()),
        Err("entity dropped".to_string())
    );
}

#[test]
fn test_membrane_wraps_refs_transitively() {
    let mut world = Guarded::new();
    let guard = world.guard;
    let wrapped = world.call(guard, "key").unwrap().refs[0];
    assert_ne!(Some(wrapped), world.key);
    world.host.connect_id(wrapped, "KeyApi");
    assert_eq!(read_text(&world.call(wrapped, "unlock").unwrap()), "opened");
    // The same key comes back as the same wrapper.
    assert_eq!(world.call(guard, "key").unwrap().refs[0], wrapped);

    world.call(guard, "revoke").unwrap();
    assert_eq!(world.call(wrapped, "unlock"), Err("capability revoked".to_string()));

    // The old membrane wrapped the key, it did not own it.
    world.guard_again();
    let guard = world.guard;
    let again = world.call(guard, "key").unwrap().refs[0];
    assert_ne!(again, wrapped);
    world.host.connect_id(again, "KeyApi");
    assert_eq!(read_text(&world.call(again, "unlock").unwrap()), "opened");
}

#[test]
fn a_wrapper_is_unwrapped_on_its_way_back() {
    let mut world = Guarded::new();
    let guard = world.guard;
    let wrapped = world.call(guard, "key").unwrap().refs[0];
    let payload = Payload::from_parts(vec![1], vec![wrapped, world.guard]);
    let crossed = world.membrane.translate(&payload, &mut world.guest).unwrap();
    assert_eq!(crossed.bytes, vec![1]);
    assert_eq!(crossed.refs, vec![world.key.unwrap(), world.guard]);
    // Events pass while the membrane stands, refs translated.
    let event = Payload::from_parts(Vec::new(), vec![world.key.unwrap()]);
    let passed = world.membrane.pass_event(Through::Root, &event, &mut world.guest).unwrap();
    assert_eq!(passed.unwrap().refs, vec![wrapped]);
    assert_eq!(world.membrane.revoke(&mut world.guest), vec![wrapped]);
    assert_eq!(world.membrane.pass_event(Through::Root, &event, &mut world.guest), Ok(None));
    assert_eq!(
        world.membrane.respond(Ok(Payload::empty()), &mut world.guest),
        Ok(Err("capability revoked".to_string()))
    );
}

#[test]
fn wrappers_stay_whatever_crosses_and_happens_meanwhile() {
    let mut world = Guarded::new();
    let first = world.host.share("KeyApi", 5, token(5), true).unwrap();
    let cross = |world: &mut Guarded, id: u64| {
        let payload = Payload::from_parts(Vec::new(), vec![id]);
        world.membrane.translate(&payload, &mut world.guest).unwrap().refs[0]
    };
    let wrapper = cross(&mut world, first);
    for entity in 6..10 {
        keep_busy(&mut world.guest);
        let other = world.host.share("KeyApi", 5, token(entity), true).unwrap();
        assert_ne!(cross(&mut world, other), wrapper);
        assert_eq!(cross(&mut world, first), wrapper);
        assert_eq!(cross(&mut world, wrapper), first);
    }
}

#[test]
fn a_wrapper_minted_elsewhere_is_used() {
    let mut world = Guarded::new();
    let key = world.host.share("KeyApi", 5, token(5), true).unwrap();
    let target = world.guest.connect_id(key, "opaque");
    world.membrane.wrap_at(target, 4711, &mut world.guest);
    assert_eq!(
        world.guest.local_entity(4711, KIND, &Vec::new()),
        Some(EntityToken { entity: key, kind: KIND })
    );
    let payload = Payload::from_parts(Vec::new(), vec![key, 4711]);
    let crossed = world.membrane.translate(&payload, &mut world.guest).unwrap();
    assert_eq!(crossed.refs, vec![4711, key]);
}

#[test]
fn a_wrapped_object_is_listened_to() {
    let mut world = Guarded::new();
    let key = world.host.share("KeyApi", 5, token(5), true).unwrap();
    world.guest.take_outbound();
    let payload = Payload::from_parts(Vec::new(), vec![key, key]);
    let crossed = world.membrane.translate(&payload, &mut world.guest).unwrap();
    assert_eq!(crossed.refs[0], crossed.refs[1]);
    let sent = world.guest.take_outbound();
    assert!(matches!(sent[..], [Frame::Subscribe { target, .. }] if target == key));
}

#[test]
fn forwarders_pass_events_on() {
    let (mut host, _, _, item) = item_ends("delta");
    let full = host.connect_id(item, "ItemApi");
    let target = host.clone_remote(&full);
    let wrapper = Attenuated::new(target, Vec::new(), &mut host).unwrap();
    let audited = Audited::new(full, &mut host).unwrap();
    let shared = host.share_with("opaque", 9, token(9)).unwrap();
    host.take_outbound();
    wrapper.pass_event(shared, "bumped", &number(1), &mut host);
    assert!(host.take_outbound().is_empty(), "nobody observes the wrapper");
    assert_eq!(host.deliver(Frame::Subscribe { target: shared, observer: 77 }), Delivery::Done);
    host.take_outbound();
    wrapper.pass_event(shared, "bumped", &number(1), &mut host);
    audited.pass_event(shared, "bumped", &number(2), &mut host);
    let calls = [1, 2].map(|n| {
        Frame::Call(Call {
            target: 77,
            request: None,
            method: "bumped".to_string(),
            payload: number(n),
            promised: None,
        })
    });
    assert_eq!(host.take_outbound(), Vec::from(calls));
}

#[test]
fn a_promised_id_is_used_at_once() {
    let (mut host, _, _, item) = item_ends("epsilon");
    host.connect_id(item, "ItemApi");
    let promised = host.promise_at(4712, item, "split", Payload::empty(), 3, "ItemApi");
    assert_eq!(promised.id(), 4712);
    assert!(host.send(4712, "bump", Payload::empty(), None, None));
    let sent = host.take_outbound();
    assert!(matches!(&sent[0], Frame::Call(call) if call.promised == Some(4712)));
    assert!(matches!(&sent[1], Frame::Call(call) if call.target == 4712));
}

/// An object that interprets its method names as it runs.
struct Chameleon {
    mode: String,
    pokes: u32,
}

impl Chameleon {
    fn answer(&mut self, call: &Call) -> Result<Payload, String> {
        match call.method.as_str() {
            "become" => {
                self.mode = read_text(&call.payload);
                Ok(Payload::empty())
            }
            "poke" => {
                self.pokes += 1;
                let input = read_text(&call.payload);
                match self.mode.as_str() {
                    "echo" => Ok(text(&input)),
                    "shout" => Ok(text(&input.to_uppercase())),
                    other => Err(format!("chameleon has no mode {other:?}")),
                }
            }
            "state" => {
                let state = serde_json::to_vec(&(&self.mode, self.pokes)).unwrap();
                Ok(Payload::from_parts(state, Vec::new()))
            }
            other => Err(format!("chameleon does not understand {other:?}")),
        }
    }
}

#[test]
fn objects_test_chameleon_handles_methods_dynamically() {
    let mut host = Objects::new();
    let mut guest = Objects::new();
    let mut chameleon = Chameleon { mode: "echo".to_string(), pokes: 0 };
    let id = guest.share_with("ChameleonApi", 8, token(8)).unwrap();
    host.connect_id(id, "ChameleonApi");
    let mut call = |method: &str, payload: Payload| {
        let mut heard = Heard::default();
        host.send(id, method, payload, Some(1), None);
        carry(&mut host, &mut guest, &mut heard, &mut |_, _, c| Some(chameleon.answer(c)));
        carry(&mut guest, &mut host, &mut heard, &mut nobody);
        heard.resolved.remove(&1).unwrap()
    };
    assert_eq!(read_text(&call("poke", text("hello")).unwrap()), "hello");
    call("become", text("shout")).unwrap();
    assert_eq!(read_text(&call("poke", text("hello")).unwrap()), "HELLO");
    let error = call("transmogrify", text("x")).unwrap_err();
    assert!(error.contains("does not understand"));
    let state = call("state", Payload::empty()).unwrap();
    let state: (String, u32) = serde_json::from_slice(&state.bytes).unwrap();
    assert_eq!(state, ("shout".to_string(), 2));
}

#[test]
fn objects_test_random_interleavings_stay_consistent() {
    for seed in 1..=10u64 {
        let (mut host, mut guest, mut home, counter) = counter_ends();
        let mut heard = Heard::default();
        let mut state = seed;
        let mut random = |bound: u64| {
            state = state.wrapping_mul(6364136223846793005).wrapping_add(1442695040888963407);
            (state >> 33) % bound
        };
        let mut expected = 0u32;
        let mut pending: Vec<(u64, u32)> = Vec::new();
        for receipt in 0..5 + random(20) {
            if random(3) < 2 {
                let by = 1 + random(9) as u32;
                expected += by;
                host.send(counter, "increment", number(by), Some(receipt), None);
                pending.push((receipt, expected));
            } else {
                carry(&mut host, &mut guest, &mut heard, &mut |o, h, c| home.serve(o, h, c));
                carry(&mut guest, &mut host, &mut heard, &mut nobody);
            }
        }
        host.send(counter, "count", Payload::empty(), Some(1000), None);
        carry(&mut host, &mut guest, &mut heard, &mut |o, h, c| home.serve(o, h, c));
        carry(&mut guest, &mut host, &mut heard, &mut nobody);
        for (receipt, prefix_sum) in pending {
            assert_eq!(ok_number(&heard.resolved[&receipt]), prefix_sum);
        }
        assert_eq!(ok_number(&heard.resolved[&1000]), expected);
    }
}

#[test]
fn unknown_objects_answer_with_an_error() {
    let mut host = Objects::new();
    let delivery = host.deliver(Frame::Call(Call {
        target: 42,
        request: Some(6),
        method: "bump".to_string(),
        payload: Payload::empty(),
        promised: None,
    }));
    assert_eq!(delivery, Delivery::Done);
    match host.take_outbound().pop().unwrap() {
        Frame::Response(Response { request, outcome }) => {
            assert_eq!(request, 6);
            assert!(outcome.unwrap_err().contains("42"));
        }
        other => panic!("{other:?}"),
    }
    // A response nobody waits for is dropped.
    let stray = Frame::Response(Response { request: 6, outcome: Err("late".to_string()) });
    assert_eq!(host.deliver(stray), Delivery::Done);
}

#[test]
fn calls_through_a_promise_wait_for_the_object() {
    let mut host = Objects::new();
    let mut guest = Objects::new();
    let mut factory = Factory::default();
    let mut heard = Heard::default();
    guest.share_root("FactoryApi", 2, token(2), true);
    let root = host.root("FactoryApi");
    let item = host.promise_call(root.id(), "create", text("pipelined"), 1, "ItemApi").unwrap();
    // The object is called before anybody has answered.
    host.send(item.id(), "bump", Payload::empty(), Some(2), None);
    let frames = host.take_outbound();
    assert_eq!(frames.len(), 2);
    let mut frames: VecDeque<Frame> = frames.into();
    let create = match guest.deliver(frames.pop_front().unwrap()) {
        Delivery::Dispatch { call, .. } => call,
        other => panic!("{other:?}"),
    };
    // The bump waits at the home until the allocating call is answered.
    assert_eq!(guest.deliver(frames.pop_front().unwrap()), Delivery::Done);
    let outcome = factory.serve(&mut guest, 2, &create).unwrap();
    let actual = outcome.as_ref().unwrap().refs[0];
    factory.items.insert(item.id(), ("alias".to_string(), 10));
    let resolution = guest.complete(create.request, create.promised, outcome);
    assert_eq!(resolution.resubscribe, Some(item.id()));
    assert_eq!(resolution.queued.len(), 1);
    for frame in resolution.queued {
        let mut rest = VecDeque::new();
        apply(&mut guest, frame, &mut heard, &mut |o, h, c| factory.serve(o, h, c), &mut rest);
    }
    carry(&mut guest, &mut host, &mut heard, &mut nobody);
    assert_eq!(heard.resolved[&1].as_ref().unwrap().refs, vec![actual]);
    assert_eq!(ok_number(&heard.resolved[&2]), 11);
}

#[test]
fn a_failed_promise_fails_the_calls_through_it() {
    let mut guest = Objects::new();
    let mut host = Objects::new();
    let mut heard = Heard::default();
    guest.share_root("FactoryApi", 2, token(2), true);
    let root = host.root("FactoryApi");
    let item = host.promise_call(root.id(), "create", text("x"), 1, "ItemApi").unwrap();
    host.send(item.id(), "bump", Payload::empty(), Some(2), None);
    carry(&mut host, &mut guest, &mut heard, &mut |_, _, _| Some(Err("out of items".to_string())));
    carry(&mut guest, &mut host, &mut heard, &mut nobody);
    assert_eq!(heard.resolved[&1], Err("out of items".to_string()));
    assert_eq!(heard.resolved[&2], Err("out of items".to_string()));
    host.send(item.id(), "bump", Payload::empty(), Some(3), None);
    carry(&mut host, &mut guest, &mut heard, &mut nobody);
    carry(&mut guest, &mut host, &mut heard, &mut nobody);
    assert_eq!(heard.resolved[&3], Err("out of items".to_string()));
}

#[test]
fn a_gone_peer_fails_what_is_pending() {
    let mut host = Objects::new();
    let root = host.root("TestPlugin");
    host.send(root.id(), "spin", Payload::empty(), Some(4), None);
    host.send(root.id(), "ping_host", Payload::empty(), Some(5), None);
    host.send(root.id(), "forget", Payload::empty(), None, None);
    let mut failed: Vec<(u64, String)> = host
        .fail_pending("plugin stopped")
        .into_iter()
        .map(|call| (call.receipt, call.error))
        .collect();
    failed.sort();
    let stopped = "plugin stopped".to_string();
    assert_eq!(failed, vec![(4, stopped.clone()), (5, stopped)]);
    assert!(host.fail_pending("again").is_empty());
}

#[test]
fn ids_are_minted_apart() {
    let mut host = Objects::new();
    let first = host.share("ItemApi", 1, token(1), true).unwrap();
    let second = host.share("ItemApi", 1, token(1), true).unwrap();
    assert_ne!(first, second);
    assert!(first != 0 && second != 0);
    assert!(host.is_local(first) && host.is_local(second));
    assert!(!host.accepts_id(first));
    assert!(!host.accepts_id(0));
    assert!(host.accepts_id(host.reserve_local_id().unwrap()));
    // A number that is taken is drawn again; without one there is no id.
    assert_eq!(host.minted(Some(first)), None);
    assert_eq!(host.minted(Some(0)), None);
    assert_eq!(host.minted(Some(4714)), Some(Ok(4714)));
    assert_eq!(host.minted(None), Some(Err(MintError::EntropyUnavailable)));
    assert_eq!(
        ForwardError::Mint(MintError::EntropyUnavailable).message(),
        "system entropy is unavailable"
    );
    assert_eq!(ForwardError::Revoked.message(), "capability revoked");
    // Releasing the one leaves the other.
    host.deliver(Frame::Release { target: first });
    assert!(host.answering_entity(first, &Vec::new()).is_err());
    assert_eq!(host.answering_entity(second, &Vec::new()), Ok(token(1)));
    assert_eq!(host.local_entity(second, KIND, &Vec::new()), Some(token(1)));
    assert_eq!(host.local_entity(second, KIND + 1, &Vec::new()), None);
    assert_eq!(host.local_entities(KIND, &Vec::new()), vec![token(1)]);
}

#[test]
fn surfaces_are_not_kept_alive_by_being_shared() {
    let mut host = Objects::new();
    let id = host.share("SurfaceApi", 1, token(3), false).unwrap();
    assert!(host.answering_entity(id, &Vec::new()).is_err());
    assert_eq!(host.answering_entity(id, &vec![token(3)]), Ok(token(3)));
}

#[test]
fn extensions_are_found_by_kind() {
    let mut host = Objects::new();
    assert_eq!(host.extension(3), None);
    host.set_extension(3, 30);
    host.set_extension(3, 31);
    assert_eq!(host.extension(3), Some(31));
}

#[test]
fn every_fifth_click_is_a_milestone() {
    let mut counter = Counter::new();
    assert_eq!(counter.increment(4), (4, None));
    let (clicks, milestone) = counter.increment(1);
    assert_eq!(clicks, 5);
    assert_eq!(milestone.unwrap().clicks, 5);
    assert_eq!(counter.increment(1), (6, None));
    assert_eq!(counter.clicks(), 6);
}

fn call_to(target: u64, method: &str, request: Option<u64>) -> Frame {
    Frame::Call(Call {
        target,
        request,
        method: method.to_string(),
        payload: Payload::empty(),
        promised: None,
    })
}

fn is_release_of(frame: &Frame, id: u64) -> bool {
    matches!(frame, Frame::Release { target } if *target == id)
}

/// Do all sorts of other things to an end, and carry away what it sent meanwhile.
fn keep_busy(objects: &mut Objects) -> Vec<Frame> {
    let other = objects.share("Other", 90, token(90), true).unwrap();
    objects.deliver(Frame::Subscribe { target: other, observer: 91 });
    objects.notify_observers(other, "changed", &number(1));
    objects.deliver(call_to(other, "work", Some(92)));
    objects.complete(Some(92), None, Ok(number(2)));
    objects.deliver(Frame::Release { target: other });
    objects.complete(None, Some(93), Err("no such thing".to_string()));
    objects.complete(None, Some(94), Ok(reference(other)));
    let first = objects.connect_id(95, "Other");
    let second = objects.clone_remote(&first);
    objects.signal_for(95, 96).unwrap();
    objects.send(95, "ask", Payload::empty(), Some(97), None);
    let promised = objects.promise_call(95, "make", Payload::empty(), 98, "Other").unwrap();
    objects.drop_remote(first);
    objects.drop_remote(second);
    objects.drain_releases();
    let again = objects.connect_id(95, "Other");
    objects.drop_remote(promised);
    objects.drop_remote(again);
    objects.drain_releases();
    objects.set_extension(1, 99);
    let sent = objects.take_outbound();
    assert!(sent.iter().any(|frame| is_release_of(frame, 95)));
    sent
}

#[test]
fn whatever_else_happens_an_object_answers_and_is_heard() {
    let mut end = Objects::new();
    let id = end.share("CounterApi", 4, token(4), true).unwrap();
    end.deliver(Frame::Subscribe { target: id, observer: 11 });
    keep_busy(&mut end);
    // Its observer hears of it, calls reach its handler, and its entity is kept alive.
    end.notify_observers(id, "changed", &Payload::empty());
    assert_eq!(end.take_outbound(), vec![call_to(11, "changed", None)]);
    match end.deliver(call_to(id, "get", Some(1))) {
        Delivery::Dispatch { handler, call } => {
            assert_eq!((handler, call.method.as_str()), (Handler::Object(4), "get"));
        }
        _ => panic!("dispatched"),
    }
    assert_eq!(end.answering_entity(id, &Vec::new()), Ok(token(4)));
    // Once released it is silent, and stays so; it answers while something else keeps it.
    end.deliver(Frame::Release { target: id });
    keep_busy(&mut end);
    end.notify_observers(id, "changed", &Payload::empty());
    assert!(end.take_outbound().is_empty());
    assert!(matches!(
        end.deliver(call_to(id, "get", Some(2))),
        Delivery::Dispatch { handler: Handler::Object(4), .. }
    ));
    assert_eq!(end.answering_entity(id, &vec![token(4)]), Ok(token(4)));
    assert_eq!(end.answering_entity(id, &Vec::new()), Err("entity dropped".to_string()));
}

#[test]
fn whatever_else_happens_a_failed_promise_answers_with_its_reason() {
    let mut end = Objects::new();
    end.complete(Some(1), Some(20), Err("out of stock".to_string()));
    end.take_outbound();
    for request in [2, 3] {
        keep_busy(&mut end);
        assert_eq!(end.deliver(call_to(20, "bump", Some(request))), Delivery::Done);
        assert_eq!(
            end.take_outbound(),
            vec![Frame::Response(Response { request, outcome: Err("out of stock".to_string()) })]
        );
    }
    end.deliver(Frame::Release { target: 20 });
    end.deliver(call_to(20, "bump", Some(4)));
    assert_eq!(
        end.take_outbound(),
        vec![Frame::Response(Response {
            request: 4,
            outcome: Err("call to unknown object 20".to_string()),
        })]
    );
}

#[test]
fn whatever_else_happens_what_waits_is_kept_in_order() {
    let mut end = Objects::new();
    let factory = end.share("FactoryApi", 2, token(2), true).unwrap();
    end.deliver(Frame::Call(Call {
        target: factory,
        request: Some(1),
        method: "create".to_string(),
        payload: Payload::empty(),
        promised: Some(20),
    }));
    for method in ["first", "second", "third"] {
        end.deliver(call_to(0, method, None));
        keep_busy(&mut end);
        end.deliver(call_to(20, method, None));
        keep_busy(&mut end);
    }
    let item = end.share("ItemApi", 3, token(3), true).unwrap();
    let settled = end.complete(Some(1), Some(20), Ok(reference(item)));
    let rooted = end.share_root("RootApi", 1, token(1), true);
    for (target, frames) in [(20, settled.queued), (0, rooted)] {
        let waited: Vec<Frame> =
            ["first", "second", "third"].map(|method| call_to(target, method, None)).into();
        assert_eq!(frames, waited);
    }
    // From then on the promised id is the item's.
    keep_busy(&mut end);
    assert!(matches!(
        end.deliver(call_to(20, "bump", None)),
        Delivery::Dispatch { handler: Handler::Object(3), .. }
    ));
}

#[test]
fn whatever_else_happens_a_held_projection_stays() {
    let mut end = Objects::new();
    let remote = end.connect_id(30, "CounterApi");
    let signal = end.signal_for(30, 31).unwrap();
    end.send(30, "get", Payload::empty(), Some(32), None);
    let asked = match end.take_outbound().pop() {
        Some(Frame::Call(call)) => call.request.unwrap(),
        _ => panic!("a call"),
    };
    let mut sent = Vec::new();
    for _ in 0..3 {
        let more = end.clone_remote(&remote);
        sent.extend(keep_busy(&mut end));
        end.drop_remote(more);
        sent.extend(keep_busy(&mut end));
    }
    assert!(!sent.iter().any(|frame| is_release_of(frame, 30)));
    assert_eq!(end.signal_for(30, 33).unwrap(), signal);
    // The call waits for its answer still.
    let answer = Frame::Response(Response { request: asked, outcome: Ok(number(5)) });
    assert_eq!(
        end.deliver(answer),
        Delivery::Resolve { receipt: 32, outcome: Ok(number(5)) }
    );
    end.drop_remote(remote);
    end.drain_releases();
    assert_eq!(end.take_outbound(), vec![Frame::Release { target: 30 }]);
}

#[test]
fn frames_leave_in_the_order_they_were_sent() {
    let mut end = Objects::new();
    let remote = end.root("RootApi");
    let mut carried = Vec::new();
    for n in 0..6 {
        end.send(remote.id(), "say", number(n), None, None);
        if n % 2 == 1 {
            carried.extend(end.take_outbound());
        }
    }
    let said: Vec<u32> = carried
        .iter()
        .map(|frame| match frame {
            Frame::Call(call) => read_number(&call.payload),
            _ => panic!("a call"),
        })
        .collect();
    assert_eq!(said, vec![0, 1, 2, 3, 4, 5]);
}
