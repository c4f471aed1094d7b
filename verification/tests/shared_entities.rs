//! Entities shared by name: the guest's end and the host's end, message by message.

use embedded_gpui::shared_guest::{
    no_handler_reason, GuestShared, MessageStep, Methods, PendingSend, SharedEntityAnnouncement,
    SharedMessage, SharedOut, SignalAction,
};
use embedded_gpui::shared_host::{dispatch_heading, no_method_reason, HostShared, HostSharedEntity};

const HOME_BIT: u64 = 1 << 63;

fn message(entity_id: u64, request_id: Option<u64>, method: &str, payload: &[u8]) -> SharedMessage {
    SharedMessage {
        entity_id,
        request_id,
        method: method.to_string(),
        payload: payload.to_vec(),
    }
}

fn announcement(entity_id: u64, interface: &str, name: &str) -> SharedEntityAnnouncement {
    SharedEntityAnnouncement {
        entity_id,
        interface: interface.to_string(),
        name: name.to_string(),
    }
}

/// A counter homed in the guest, told of a message that adds to it.
fn add(guest: &mut GuestShared, count: &mut u32, message: SharedMessage) {
    match guest.message_delivered(message) {
        MessageStep::Dispatch { handler: 5, message } => {
            let by: u32 = serde_json::from_slice(&message.payload).unwrap();
            *count += by;
            guest.emit_home_event(message.entity_id, "$notify", Vec::new());
            guest.respond(message.request_id, Ok(serde_json::to_vec(&*count).unwrap()));
        }
        other => panic!("{other:?}"),
    }
}

fn counter_home() -> (GuestShared, u64) {
    let mut guest = GuestShared::new(HOME_BIT);
    let mut methods = Methods::new();
    methods.on("increment".to_string(), 5);
    let id = guest.share("TestCounterSpec", "guest-counter", methods);
    assert_eq!(
        guest.take_outbound(),
        vec![SharedOut::Announce(announcement(id, "TestCounterSpec", "guest-counter"))]
    );
    (guest, id)
}

#[test]
fn test_send_gives_read_your_writes() {
    let (mut guest, id) = counter_home();
    let mut count = 0;
    // A subscriber hears of the write before the write is answered.
    assert_eq!(guest.message_delivered(message(id, None, "$subscribe", &[])), MessageStep::Answered);
    guest.take_outbound();
    add(&mut guest, &mut count, message(id, Some(1), "increment", b"3"));
    assert_eq!(
        guest.take_outbound(),
        vec![
            SharedOut::Event { entity_id: id, name: "$notify".to_string(), payload: Vec::new() },
            SharedOut::Response { request_id: 1, outcome: Ok(b"3".to_vec()) },
        ]
    );
    // The write is there when it is answered.
    assert_eq!(count, 3);
}

#[test]
fn test_call_returns_response_after_snapshot() {
    let (mut guest, id) = counter_home();
    let mut count = 0;
    add(&mut guest, &mut count, message(id, Some(1), "increment", b"2"));
    add(&mut guest, &mut count, message(id, Some(2), "increment", b"5"));
    // Nobody subscribed, so the answers are all there is, in order.
    assert_eq!(
        guest.take_outbound(),
        vec![
            SharedOut::Response { request_id: 1, outcome: Ok(b"2".to_vec()) },
            SharedOut::Response { request_id: 2, outcome: Ok(b"7".to_vec()) },
        ]
    );
    assert_eq!(count, 7);
}

/// Items homed in the guest, each behind handler 3, reached by refs of no name.
#[derive(Default)]
struct Items {
    homes: Vec<(u64, u64, String, u32)>,
    live: Vec<u64>,
}

impl Items {
    fn create(&mut self, guest: &mut GuestShared, label: &str) -> u64 {
        let entity = 10 + self.homes.len() as u64;
        let mut methods = Methods::new();
        methods.on("bump".to_string(), 3);
        let id = guest.share_anonymous(entity, methods);
        self.homes.push((id, entity, label.to_string(), 0));
        id
    }

    fn bump(&mut self, guest: &mut GuestShared, id: u64) -> Result<u32, String> {
        match guest.message_delivered(message(id, Some(1), "bump", &[])) {
            MessageStep::Dispatch { handler: 3, message } => {
                let item = self.homes.iter_mut().find(|item| item.0 == id).unwrap();
                let outcome = guest.answering_entity(id, item.1, &self.live).map(|_| {
                    item.3 += 1;
                    serde_json::to_vec(&item.3).unwrap()
                });
                guest.respond(message.request_id, outcome);
            }
            other => panic!("{other:?}"),
        }
        match guest.take_outbound().pop() {
            Some(SharedOut::Response { request_id: 1, outcome }) => {
                outcome.map(|bytes| serde_json::from_slice(&bytes).unwrap())
            }
            other => panic!("{other:?}"),
        }
    }
}

#[test]
fn shared_entities_test_shared_refs_build_object_graphs() {
    let mut guest = GuestShared::new(HOME_BIT);
    let mut items = Items::default();
    let first = items.create(&mut guest, "alpha");
    assert_ne!(first & HOME_BIT, 0);
    assert!(guest.take_outbound().is_empty(), "a ref is handed out, not announced");

    // A subscription is answered with a notify, so the state is fetched at once.
    guest.message_delivered(message(first, None, "$subscribe", &[]));
    assert_eq!(
        guest.take_outbound(),
        vec![SharedOut::Event {
            entity_id: first,
            name: "$notify".to_string(),
            payload: Vec::new(),
        }]
    );
    assert_eq!((items.homes[0].2.as_str(), items.homes[0].3), ("alpha", 0));

    // The ref is a live capability: calls reach the item.
    assert_eq!(items.bump(&mut guest, first), Ok(1));
    assert_eq!(items.homes[0].3, 1);

    // Distinct creations are distinct capabilities.
    let second = items.create(&mut guest, "beta");
    assert_ne!(first, second);
    assert_eq!(items.bump(&mut guest, second), Ok(1));
    assert_eq!(items.homes[0].3, 1);
}

#[test]
fn shared_entities_test_dropping_last_remote_releases_the_capability() {
    // The home: the item answers while it is held, and not once it was released.
    let mut home = GuestShared::new(HOME_BIT);
    let mut items = Items::default();
    let item = items.create(&mut home, "ephemeral");
    assert_eq!(items.bump(&mut home, item), Ok(1));
    assert_eq!(items.bump(&mut home, item), Ok(2));
    home.message_delivered(message(item, None, "$release", &[]));
    assert_eq!(items.bump(&mut home, item), Err("entity released".to_string()));
    items.live.push(10);
    assert_eq!(items.bump(&mut home, item), Ok(3), "something else keeps it alive");

    // The holder: the last of its handles sends the release.
    let mut guest = GuestShared::new(HOME_BIT);
    assert_eq!(guest.connect(9, "ItemSpec", 40), 40);
    // Connecting again shares the projection and its signal.
    assert_eq!(guest.connect(9, "ItemSpec", 41), 40);
    guest.clone_handle(9);
    guest.take_outbound();
    guest.drop_handle(9);
    guest.drop_handle(9);
    assert!(guest.take_outbound().is_empty());
    guest.drop_handle(9);
    match guest.take_outbound().pop() {
        Some(SharedOut::Message(sent)) => {
            assert_eq!((sent.entity_id, sent.method.as_str()), (9, "$release"));
        }
        other => panic!("{other:?}"),
    }
}

#[test]
fn a_released_home_is_gone() {
    let mut guest = GuestShared::new(HOME_BIT);
    let mut methods = Methods::new();
    methods.on("bump".to_string(), 3);
    let id = guest.share_anonymous(1, methods);
    match guest.message_delivered(message(id, Some(1), "bump", &[])) {
        MessageStep::Dispatch { handler, .. } => assert_eq!(handler, 3),
        other => panic!("{other:?}"),
    }
    guest.message_delivered(message(id, None, "$release", &[]));
    guest.take_outbound();
    assert_eq!(guest.message_delivered(message(777, Some(2), "bump", &[])), MessageStep::Answered);
    match guest.take_outbound().pop() {
        Some(SharedOut::Response { request_id: 2, outcome: Err(_) }) => {}
        other => panic!("{other:?}"),
    }
}

#[test]
fn early_sends_wait_for_the_announcement() {
    let mut guest = GuestShared::new(HOME_BIT);
    guest.remote("clicks", "CounterSpec", 70);
    assert!(guest.dispatch_outgoing("clicks", "increment", b"1".to_vec(), Some(8)));
    assert!(guest.dispatch_outgoing("clicks", "reset", Vec::new(), None));
    assert!(guest.dispatch_outgoing("clicks", "increment", b"2".to_vec(), Some(9)));
    assert!(!guest.dispatch_outgoing("unheard-of", "increment", Vec::new(), Some(9)));
    assert!(guest.take_outbound().is_empty());
    // One of another interface does not bind.
    guest.entity_announced(announcement(3, "TextSpec", "clicks"));
    assert!(guest.take_outbound().is_empty());
    guest.entity_announced(announcement(4, "CounterSpec", "clicks"));
    let sent: Vec<(u64, Option<u64>, String)> = guest
        .take_outbound()
        .into_iter()
        .map(|item| match item {
            SharedOut::Message(sent) => (sent.entity_id, sent.request_id, sent.method),
            other => panic!("{other:?}"),
        })
        .collect();
    assert_eq!(
        sent,
        vec![
            (4, None, "$subscribe".to_string()),
            (4, Some(1), "increment".to_string()),
            (4, None, "reset".to_string()),
            (4, Some(2), "increment".to_string()),
        ]
    );
    assert_eq!(
        guest.event_delivered(4, "$notify".to_string(), Vec::new()),
        SignalAction::Notify { signal: 70 }
    );
    assert_eq!(
        guest.event_delivered(4, "milestone".to_string(), b"5".to_vec()),
        SignalAction::Emit { signal: 70, name: "milestone".to_string(), payload: b"5".to_vec() }
    );
    assert_eq!(
        guest.event_delivered(5, "$notify".to_string(), Vec::new()),
        SignalAction::Unknown
    );
    // Each receipt is settled by the message that carried it, once.
    assert_eq!(guest.response_delivered(2), Some(9));
    assert_eq!(guest.response_delivered(1), Some(8));
    assert_eq!(guest.response_delivered(1), None);
}

#[test]
fn shared_entities_test_chameleon_handles_methods_dynamically() {
    let mut guest = GuestShared::new(HOME_BIT);
    let mut methods = Methods::new();
    methods.on("*".to_string(), 11);
    let id = guest.share("ChameleonSpec", "chameleon", methods);
    guest.take_outbound();
    let (mut mode, mut pokes) = ("echo".to_string(), 0);
    // The wildcard answers whatever has no handler of its own.
    let mut call = |method: &str, argument: &str| -> Result<String, String> {
        let payload = serde_json::to_vec(argument).unwrap();
        match guest.message_delivered(message(id, Some(1), method, &payload)) {
            MessageStep::Dispatch { handler, message } => {
                assert_eq!((handler, message.method.as_str()), (11, method));
                let argument: String = serde_json::from_slice(&message.payload).unwrap();
                let outcome = match message.method.as_str() {
                    "become" => {
                        mode = argument;
                        Ok(String::new())
                    }
                    "poke" => {
                        pokes += 1;
                        Ok(if mode == "shout" { argument.to_uppercase() } else { argument })
                    }
                    other => Err(format!("chameleon does not understand {other:?}")),
                };
                let outcome = outcome.map(|text| serde_json::to_vec(&text).unwrap());
                guest.respond(message.request_id, outcome);
            }
            other => panic!("{other:?}"),
        }
        match guest.take_outbound().pop() {
            Some(SharedOut::Response { request_id: 1, outcome }) => {
                outcome.map(|bytes| serde_json::from_slice(&bytes).unwrap())
            }
            other => panic!("{other:?}"),
        }
    };
    assert_eq!(call("poke", "hello"), Ok("hello".to_string()));
    assert!(call("become", "shout").is_ok());
    assert_eq!(call("poke", "hello"), Ok("HELLO".to_string()));
    assert!(call("transmogrify", "x").unwrap_err().contains("does not understand"));
    assert_eq!(pokes, 2);
    assert_eq!(mode, "shout");
}

#[test]
fn a_method_without_a_handler_fails() {
    let (mut guest, id) = counter_home();
    assert_eq!(guest.message_delivered(message(id, Some(4), "reset", &[])), MessageStep::Answered);
    assert_eq!(
        guest.take_outbound(),
        vec![SharedOut::Response {
            request_id: 4,
            outcome: Err(no_handler_reason("\"reset\"", id)),
        }]
    );
}

#[test]
fn control_messages_are_answered_with_unit() {
    let (mut guest, id) = counter_home();
    guest.message_delivered(message(id, Some(6), "$subscribe", &[]));
    let answered = guest.take_outbound();
    assert!(answered.contains(&SharedOut::Response { request_id: 6, outcome: Ok(b"null".to_vec()) }));
}

fn host_home(name: &str) -> HostSharedEntity {
    let mut methods = Methods::new();
    methods.on("read".to_string(), 21);
    HostSharedEntity::new(name.to_string(), "VaultSpec".to_string(), methods, Some(1))
}

#[test]
fn the_host_finds_who_answers() {
    let mut host = HostShared::new();
    let id = host.reserve_entity_id();
    assert_eq!(id, 1);
    host.insert_home(id, host_home("vault"));
    let found = host.dispatch(id, "read").unwrap();
    assert_eq!(found.handler, 21);
    assert_eq!(found.context, dispatch_heading("\"read\"", "\"vault\""));
    assert_eq!(
        host.dispatch(id, "write"),
        Err(no_method_reason("\"vault\"", "VaultSpec", "\"write\""))
    );
    assert!(host.dispatch(99, "read").is_err());
    assert!(host.home_mut(id, true, None));
    assert!(!host.home_mut(99, true, None));
}

#[test]
fn announcements_and_projections_may_come_in_either_order() {
    let send = |method: &str| PendingSend {
        request_id: Some(1),
        method: method.to_string(),
        payload: Vec::new(),
    };
    let mut host = HostShared::new();
    host.insert_projection("typed-text".to_string(), "TextSpec".to_string(), 30);
    assert!(host.queue_send("typed-text", send("first")));
    assert!(host.queue_send("typed-text", send("second")));
    assert!(!host.queue_send("palette", send("lost")));
    let sends = host.bind_projection(&announcement(12, "TextSpec", "typed-text")).unwrap();
    let methods: Vec<&str> = sends.iter().map(|send| send.method.as_str()).collect();
    assert_eq!(methods, vec!["first", "second"]);
    // They go out once.
    assert_eq!(host.bind_projection(&announcement(12, "TextSpec", "typed-text")), Some(Vec::new()));
    // Nobody asked for this one yet, and it is of another interface than that one.
    assert_eq!(host.bind_projection(&announcement(13, "PaletteSpec", "palette")), None);
    host.insert_projection_bound("vault".to_string(), "VaultSpec".to_string(), 31, 14);
    assert_eq!(host.bind_projection(&announcement(14, "TextSpec", "vault")), None);
}

/// Do all sorts of other things to the guest's end.
fn keep_busy(guest: &mut GuestShared) {
    let mut methods = Methods::new();
    methods.on("work".to_string(), 8);
    let other = guest.share("Other", "other", methods);
    guest.message_delivered(message(other, Some(80), "$subscribe", &[]));
    guest.emit_home_event(other, "changed", vec![1]);
    guest.message_delivered(message(other, Some(81), "work", &[]));
    guest.respond(Some(81), Ok(Vec::new()));
    guest.message_delivered(message(other, None, "$release", &[]));
    guest.share_anonymous(82, Methods::new());
    guest.connect(83, "Other", 84);
    guest.clone_handle(83);
    guest.drop_handle(83);
    guest.drop_handle(83);
    guest.remote("elsewhere", "Other", 85);
    guest.dispatch_outgoing("elsewhere", "work", Vec::new(), Some(86));
    guest.entity_announced(announcement(87, "Other", "elsewhere"));
    guest.response_delivered(1);
    guest.take_outbound();
}

#[test]
fn whatever_else_happens_events_flow_until_the_release() {
    let mut guest = GuestShared::new(HOME_BIT);
    let mut methods = Methods::new();
    methods.on("bump".to_string(), 3);
    let id = guest.share_anonymous(10, methods);
    guest.message_delivered(message(id, None, "$subscribe", &[]));
    keep_busy(&mut guest);
    guest.emit_home_event(id, "bumped", vec![1]);
    assert_eq!(
        guest.take_outbound(),
        vec![SharedOut::Event { entity_id: id, name: "bumped".to_string(), payload: vec![1] }]
    );
    assert!(guest.answering_entity(id, 10, &Vec::new()).is_ok());
    guest.message_delivered(message(id, None, "$release", &[]));
    keep_busy(&mut guest);
    guest.emit_home_event(id, "bumped", vec![2]);
    assert!(guest.take_outbound().is_empty());
    assert_eq!(
        guest.answering_entity(id, 10, &Vec::new()),
        Err("entity released".to_string())
    );
    assert!(guest.answering_entity(id, 10, &vec![10]).is_ok());
}

#[test]
fn whatever_else_happens_early_sends_wait_in_order() {
    let mut guest = GuestShared::new(HOME_BIT);
    guest.remote("counter", "CounterSpec", 1);
    for n in 0..3u8 {
        guest.dispatch_outgoing("counter", "add", vec![n], None);
        keep_busy(&mut guest);
    }
    guest.entity_announced(announcement(9, "CounterSpec", "counter"));
    let mut expected = vec![SharedOut::Message(message(9, None, "$subscribe", &[]))];
    expected.extend((0..3u8).map(|n| SharedOut::Message(message(9, None, "add", &[n]))));
    assert_eq!(guest.take_outbound(), expected);
}

#[test]
fn shared_entities_test_random_interleavings_stay_consistent() {
    for seed in 1..=10u64 {
        let (mut guest, id) = counter_home();
        let mut count = 0;
        let mut host = HostShared::new();
        host.insert_projection("guest-counter".to_string(), "TestCounterSpec".to_string(), 1);
        let mut state = seed;
        let mut random = |bound: u64| {
            state = state.wrapping_mul(6364136223846793005).wrapping_add(1442695040888963407);
            (state >> 33) % bound
        };
        let mut expected = 0u32;
        let mut pending: Vec<(u64, u32)> = Vec::new();
        let mut sent: Vec<SharedMessage> = Vec::new();
        let mut answers: Vec<(u64, u32)> = Vec::new();
        let mut settle = |guest: &mut GuestShared, sent: &mut Vec<SharedMessage>| {
            for message in sent.drain(..) {
                add(guest, &mut count, message);
            }
            for item in guest.take_outbound() {
                match item {
                    SharedOut::Response { request_id, outcome } => answers.push((
                        request_id,
                        serde_json::from_slice(&outcome.unwrap()).unwrap(),
                    )),
                    other => panic!("{other:?}"),
                }
            }
        };
        let rounds = 5 + random(20);
        // What is sent before the counter is announced waits for it.
        let announced = random(rounds);
        for request in 0..rounds {
            if request == announced {
                let bound = announcement(id, "TestCounterSpec", "guest-counter");
                for send in host.bind_projection(&bound).unwrap() {
                    sent.push(message(id, send.request_id, &send.method, &send.payload));
                }
            }
            if random(3) < 2 {
                let by = 1 + random(9) as u32;
                expected += by;
                let payload = serde_json::to_vec(&by).unwrap();
                if request < announced {
                    assert!(host.queue_send(
                        "guest-counter",
                        PendingSend {
                            request_id: Some(request),
                            method: "increment".to_string(),
                            payload,
                        }
                    ));
                } else {
                    sent.push(message(id, Some(request), "increment", &payload));
                }
                pending.push((request, expected));
            } else {
                settle(&mut guest, &mut sent);
            }
        }
        settle(&mut guest, &mut sent);
        // Each answer is the sum of everything sent up to its message.
        assert_eq!(answers, pending);
        assert_eq!(count, expected);
    }
}
