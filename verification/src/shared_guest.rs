//! Entities shared by name, at the guest's end: homes for guest-owned entities, and the
//! projections behind remotes to host-homed ones. A remote may be used before its home is
//! announced: what is sent meanwhile waits, in order.

use vstd::prelude::*;
use vstd::string::*;
use crate::capabilities::{debug_text, quoted};
use crate::name_table::NameTable;
use crate::table::Table;
use crate::text::{append_decimal, decimal_chars, same_text};

verus! {

/// The method by which a remote asks for events.
pub open spec fn subscribe_method() -> Seq<char> {
    "$subscribe"@
}

/// The method by which a remote gives its capability back.
pub open spec fn release_method() -> Seq<char> {
    "$release"@
}

/// The method name that answers whatever has no handler of its own.
pub open spec fn wildcard_method() -> Seq<char> {
    "*"@
}

/// A message to a home.
#[derive(Debug, PartialEq)]
pub struct SharedMessage {
    pub entity_id: u64,
    pub request_id: Option<u64>,
    pub method: String,
    pub payload: Vec<u8>,
}

/// A home made known under a name.
#[derive(Debug, PartialEq)]
pub struct SharedEntityAnnouncement {
    pub entity_id: u64,
    pub interface: String,
    pub name: String,
}

/// What goes to the other end.
#[derive(Debug, PartialEq)]
pub enum SharedOut {
    Message(SharedMessage),
    Response { request_id: u64, outcome: Result<Vec<u8>, String> },
    Event { entity_id: u64, name: String, payload: Vec<u8> },
    Announce(SharedEntityAnnouncement),
}

/// What a [`SharedOut`] holds.
#[verifier::ext_equal]
pub enum SharedOutModel {
    Message {
        entity_id: u64,
        request_id: Option<u64>,
        method: Seq<char>,
        payload: Seq<u8>,
    },
    Response { answers: u64, outcome: Result<Seq<u8>, Seq<char>> },
    Event { home: u64, name: Seq<char>, data: Seq<u8> },
    Announce { homed: u64, interface: Seq<char>, bound: Seq<char> },
}

/// What the outcome of a message holds.
pub open spec fn bytes_outcome(outcome: Result<Vec<u8>, String>) -> Result<Seq<u8>, Seq<char>> {
    match outcome {
        Ok(bytes) => Ok(bytes@),
        Err(error) => Err(error@),
    }
}

impl View for SharedOut {
    type V = SharedOutModel;

    open spec fn view(&self) -> SharedOutModel {
        match *self {
            SharedOut::Message(message) => SharedOutModel::Message {
                entity_id: message.entity_id,
                request_id: message.request_id,
                method: message.method@,
                payload: message.payload@,
            },
            SharedOut::Response { request_id, outcome } => SharedOutModel::Response {
                answers: request_id,
                outcome: bytes_outcome(outcome),
            },
            SharedOut::Event { entity_id, name, payload } => SharedOutModel::Event {
                home: entity_id,
                name: name@,
                data: payload@,
            },
            SharedOut::Announce(announcement) => SharedOutModel::Announce {
                homed: announcement.entity_id,
                interface: announcement.interface@,
                bound: announcement.name@,
            },
        }
    }
}

/// What some outgoing items hold, in order.
pub open spec fn out_models(items: Seq<SharedOut>) -> Seq<SharedOutModel> {
    items.map_values(|item: SharedOut| item@)
}

/// A message sent before its home was announced.
#[derive(Debug, PartialEq)]
pub struct PendingSend {
    pub request_id: Option<u64>,
    pub method: String,
    pub payload: Vec<u8>,
}

/// What a [`PendingSend`] holds.
#[verifier::ext_equal]
pub struct SendModel {
    pub request_id: Option<u64>,
    pub method: Seq<char>,
    pub payload: Seq<u8>,
}

impl View for PendingSend {
    type V = SendModel;

    open spec fn view(&self) -> SendModel {
        SendModel { request_id: self.request_id, method: self.method@, payload: self.payload@ }
    }
}

impl SendModel {
    /// The message this is, once the home is known.
    pub open spec fn addressed(self, entity_id: u64) -> SharedOutModel {
        SharedOutModel::Message {
            entity_id,
            request_id: self.request_id,
            method: self.method,
            payload: self.payload,
        }
    }
}

/// What some waiting messages hold, in order.
pub open spec fn send_models(sends: Seq<PendingSend>) -> Seq<SendModel> {
    sends.map_values(|send: PendingSend| send@)
}

/// A home's handlers by method name.
pub struct Methods {
    handlers: NameTable<u64>,
}

impl View for Methods {
    type V = Map<Seq<char>, u64>;

    closed spec fn view(&self) -> Map<Seq<char>, u64> {
        self.handlers@
    }
}

/// Who answers a method: its own handler, or the wildcard.
pub open spec fn handler_for(methods: Map<Seq<char>, u64>, method: Seq<char>) -> Option<u64> {
    if methods.contains_key(method) {
        Some(methods[method])
    } else if methods.contains_key(wildcard_method()) {
        Some(methods[wildcard_method()])
    } else {
        None
    }
}

impl Methods {
    /// No handlers.
    pub fn new() -> (methods: Methods)
        ensures
            methods@ == Map::<Seq<char>, u64>::empty(),
    {
        Methods { handlers: NameTable::new() }
    }

    /// Answer a method with this handler, in place of one it had.
    pub fn on(&mut self, method: String, handler: u64)
        ensures
            final(self)@ == old(self)@.insert(method@, handler),
    {
        self.handlers.insert(method, handler);
    }

    /// Who answers a method.
    pub fn find(&self, method: &str) -> (handler: Option<u64>)
        ensures
            handler == handler_for(self@, method@),
    {
        match self.handlers.get(method) {
            Some(handler) => Some(*handler),
            None => match self.handlers.get("*") {
                Some(handler) => Some(*handler),
                None => None,
            },
        }
    }
}

struct Projection {
    interface: String,
    entity_id: Option<u64>,
    signal: u64,
    pending_sends: Vec<PendingSend>,
    handles: u64,
}

/// What a projection holds.
#[verifier::ext_equal]
pub struct SharedProjectionModel {
    pub interface: Seq<char>,
    /// The home, once it is known.
    pub entity_id: Option<u64>,
    /// Where incoming events land.
    pub signal: u64,
    /// What waits for the home to be known, in order.
    pub pending_sends: Seq<SendModel>,
    /// How many remotes hold a projection made from a ref; one made by name is not
    /// counted.
    pub handles: nat,
}

impl View for Projection {
    type V = SharedProjectionModel;

    closed spec fn view(&self) -> SharedProjectionModel {
        SharedProjectionModel {
            interface: self.interface@,
            entity_id: self.entity_id,
            signal: self.signal,
            pending_sends: send_models(self.pending_sends@),
            handles: self.handles as nat,
        }
    }
}

struct Home {
    methods: Methods,
    subscribed: bool,
    strong: Option<u64>,
}

/// What a home holds.
#[verifier::ext_equal]
pub struct SharedHomeModel {
    pub methods: Map<Seq<char>, u64>,
    /// Whether the other end holds a live remote; events only flow while it does.
    pub subscribed: bool,
    /// The entity an anonymous share keeps alive until it is released.
    pub strong: Option<u64>,
}

impl View for Home {
    type V = SharedHomeModel;

    closed spec fn view(&self) -> SharedHomeModel {
        SharedHomeModel {
            methods: self.methods@,
            subscribed: self.subscribed,
            strong: self.strong,
        }
    }
}

/// The state of the guest's end.
#[verifier::ext_equal]
pub struct SharedModel {
    pub projections: Map<Seq<char>, SharedProjectionModel>,
    pub names: Map<u64, Seq<char>>,
    pub homes: Map<u64, SharedHomeModel>,
    /// Set in the id of every home at this end.
    pub home_bit: u64,
    pub next_home_id: u64,
    pub next_request_id: u64,
    pub pending_responses: Map<u64, u64>,
    pub outbound: Seq<SharedOutModel>,
}

/// What an arriving message leaves to be done.
#[derive(Debug, PartialEq)]
pub enum MessageStep {
    /// It is answered.
    Answered,
    /// Run the handler, then hand what it returned to [`GuestShared::respond`].
    Dispatch { handler: u64, message: SharedMessage },
}

/// What an arriving event does to a projection's signal.
#[derive(Debug, PartialEq)]
pub enum SignalAction {
    /// Nobody knows the entity.
    Unknown,
    Notify { signal: u64 },
    Emit { signal: u64, name: String, payload: Vec<u8> },
}

/// The name a projection made from a ref goes by.
pub open spec fn ref_name(entity_id: u64) -> Seq<char> {
    "#"@ + decimal_chars(entity_id as nat)
}

fn name_of_ref(entity_id: u64) -> (name: String)
    ensures
        name@ == ref_name(entity_id),
{
    let mut name = "#".to_owned();
    append_decimal(&mut name, entity_id);
    name
}

/// Why a message without a handler fails.
pub open spec fn no_handler(method: Seq<char>, entity_id: u64) -> Seq<char> {
    "no handler for shared method "@ + debug_text(method) + " on entity "@ + decimal_chars(
        entity_id as nat,
    )
}

impl SharedModel {
    /// The state with one more item to send.
    pub open spec fn sent(self, item: SharedOutModel) -> SharedModel {
        SharedModel { outbound: self.outbound.push(item), ..self }
    }

    /// The state with a fresh projection of `name`, in place of one it had.
    pub open spec fn projected(
        self,
        name: Seq<char>,
        interface: Seq<char>,
        entity_id: Option<u64>,
        signal: u64,
        handles: nat,
    ) -> SharedModel {
        SharedModel {
            projections: self.projections.insert(
                name,
                SharedProjectionModel {
                    interface,
                    entity_id,
                    signal,
                    pending_sends: Seq::empty(),
                    handles,
                },
            ),
            names: match entity_id {
                Some(entity_id) => self.names.insert(entity_id, name),
                None => self.names,
            },
            ..self
        }
    }

    /// The state after a request id was given out for a receipt, where there is one.
    pub open spec fn requested(self, receipt: Option<u64>) -> SharedModel {
        match receipt {
            Some(receipt) => {
                let request = (self.next_request_id + 1) as u64;
                SharedModel {
                    next_request_id: request,
                    pending_responses: self.pending_responses.insert(request, receipt),
                    ..self
                }
            },
            None => self,
        }
    }

    /// The id a request for this receipt goes by.
    pub open spec fn request_id(self, receipt: Option<u64>) -> Option<u64> {
        match receipt {
            Some(_) => Some((self.next_request_id + 1) as u64),
            None => None,
        }
    }

    /// The state after a message was sent to the entity bound to `name`: at once where the
    /// home is known, otherwise queued; not at all where there is no such projection.
    pub open spec fn dispatched(
        self,
        name: Seq<char>,
        method: Seq<char>,
        payload: Seq<u8>,
        receipt: Option<u64>,
    ) -> SharedModel {
        if !self.projections.contains_key(name) {
            self
        } else {
            let send = SendModel { request_id: self.request_id(receipt), method, payload };
            let projection = self.projections[name];
            match projection.entity_id {
                Some(entity_id) => self.requested(receipt).sent(send.addressed(entity_id)),
                None => SharedModel {
                    projections: self.projections.insert(
                        name,
                        SharedProjectionModel {
                            pending_sends: projection.pending_sends.push(send),
                            ..projection
                        },
                    ),
                    ..self.requested(receipt)
                },
            }
        }
    }

    /// Whether somebody holds the projection of a ref.
    pub open spec fn is_held(self, entity_id: u64) -> bool {
        self.projections.contains_key(ref_name(entity_id))
            && self.projections[ref_name(entity_id)].handles > 0
    }

    /// The state with another count of handles on the projection of a ref.
    pub open spec fn with_handles(self, entity_id: u64, handles: nat) -> SharedModel {
        let name = ref_name(entity_id);
        SharedModel {
            projections: self.projections.insert(
                name,
                SharedProjectionModel { handles, ..self.projections[name] },
            ),
            ..self
        }
    }

    /// The state after one more handle on a ref was taken. The first one subscribes.
    pub open spec fn connected(
        self,
        entity_id: u64,
        interface: Seq<char>,
        candidate: u64,
    ) -> SharedModel {
        let name = ref_name(entity_id);
        if self.is_held(entity_id) {
            self.with_handles(entity_id, self.projections[name].handles + 1)
        } else {
            self.projected(name, interface, Some(entity_id), candidate, 1).dispatched(
                name,
                subscribe_method(),
                Seq::empty(),
                None,
            )
        }
    }

    /// The state after a handle on a ref was given back. The last one releases.
    pub open spec fn dropped(self, entity_id: u64) -> SharedModel {
        let handles = (self.projections[ref_name(entity_id)].handles - 1) as nat;
        let fewer = self.with_handles(entity_id, handles);
        if handles == 0 {
            fewer.released(ref_name(entity_id))
        } else {
            fewer
        }
    }

    /// The state after a home was installed under the next id.
    pub open spec fn homed(self, methods: Map<Seq<char>, u64>, strong: Option<u64>) -> SharedModel {
        SharedModel {
            homes: self.homes.insert(
                self.fresh_home_id(),
                SharedHomeModel { methods, subscribed: false, strong },
            ),
            next_home_id: (self.next_home_id + 1) as u64,
            ..self
        }
    }

    /// The id the next home gets.
    pub open spec fn fresh_home_id(self) -> u64 {
        self.home_bit | ((self.next_home_id + 1) as u64)
    }

    /// The state after a home emitted an event; it goes out only while the other end
    /// listens.
    pub open spec fn emitted(self, entity_id: u64, event: Seq<char>, payload: Seq<u8>) -> SharedModel {
        if self.homes.contains_key(entity_id) && self.homes[entity_id].subscribed {
            self.sent(SharedOutModel::Event { home: entity_id, name: event, data: payload })
        } else {
            self
        }
    }

    /// Whether an announcement binds a projection: one of that name, of that interface.
    pub open spec fn binds(self, interface: Seq<char>, name: Seq<char>) -> bool {
        self.projections.contains_key(name) && self.projections[name].interface == interface
    }

    /// The state after a home was announced: what waited for it goes out, in order.
    pub open spec fn announced(
        self,
        entity_id: u64,
        interface: Seq<char>,
        name: Seq<char>,
    ) -> SharedModel {
        if self.binds(interface, name) {
            let projection = self.projections[name];
            SharedModel {
                projections: self.projections.insert(
                    name,
                    SharedProjectionModel {
                        entity_id: Some(entity_id),
                        pending_sends: Seq::empty(),
                        ..projection
                    },
                ),
                names: self.names.insert(entity_id, name),
                outbound: self.outbound + projection.pending_sends.map_values(
                    |send: SendModel| send.addressed(entity_id),
                ),
                ..self
            }
        } else {
            self
        }
    }

    /// The state after a message was answered; one without a request id wants no answer.
    pub open spec fn answered(
        self,
        request_id: Option<u64>,
        outcome: Result<Seq<u8>, Seq<char>>,
    ) -> SharedModel {
        match request_id {
            Some(request_id) => self.sent(
                SharedOutModel::Response { answers: request_id, outcome },
            ),
            None => self,
        }
    }

    /// The handler an arriving message is for, if it is no control message.
    pub open spec fn message_handler(self, entity_id: u64, method: Seq<char>) -> Option<u64> {
        if self.homes.contains_key(entity_id) && method != subscribe_method() && method
            != release_method() {
            handler_for(self.homes[entity_id].methods, method)
        } else {
            None
        }
    }

    /// The state after a message arrived, before its handler (if it has one) ran.
    pub open spec fn message_arrived(
        self,
        entity_id: u64,
        request_id: Option<u64>,
        method: Seq<char>,
    ) -> SharedModel {
        if self.message_handler(entity_id, method) is Some {
            self
        } else if self.homes.contains_key(entity_id) && method == subscribe_method() {
            // A subscription is answered with an initial notify, so a new remote's
            // observers always fire at least once.
            SharedModel {
                homes: self.homes.insert(
                    entity_id,
                    SharedHomeModel { subscribed: true, ..self.homes[entity_id] },
                ),
                ..self
            }.emitted(entity_id, "$notify"@, Seq::empty()).answered(request_id, Ok(null_bytes()))
        } else if self.homes.contains_key(entity_id) && method == release_method() {
            SharedModel {
                homes: self.homes.insert(
                    entity_id,
                    SharedHomeModel {
                        subscribed: false,
                        strong: None,
                        ..self.homes[entity_id]
                    },
                ),
                ..self
            }.answered(request_id, Ok(null_bytes()))
        } else {
            self.answered(request_id, Err(no_handler(method, entity_id)))
        }
    }

    /// Whether a home's handlers find the entity they speak for.
    pub open spec fn answers(self, entity_id: u64, entity: u64, live: Seq<u64>) -> bool {
        self.homes.contains_key(entity_id) && (self.homes[entity_id].strong == Some(entity)
            || live.contains(entity))
    }

    /// The projection an entity's events are for.
    pub open spec fn listening(self, entity_id: u64) -> Option<SharedProjectionModel> {
        if self.names.contains_key(entity_id) && self.projections.contains_key(
            self.names[entity_id],
        ) {
            Some(self.projections[self.names[entity_id]])
        } else {
            None
        }
    }

    /// The state after the last remote of a projection made from a ref dropped: the home
    /// is told, and the projection forgotten.
    pub open spec fn released(self, name: Seq<char>) -> SharedModel {
        let told = self.dispatched(name, release_method(), Seq::empty(), None);
        SharedModel {
            projections: told.projections.remove(name),
            names: if told.projections.contains_key(name) {
                match told.projections[name].entity_id {
                    Some(entity_id) => told.names.remove(entity_id),
                    None => told.names,
                }
            } else {
                told.names
            },
            ..told
        }
    }
}

/// The bytes a value with nothing in it is encoded as.
pub open spec fn null_bytes() -> Seq<u8> {
    seq![110u8, 117u8, 108u8, 108u8]
}

/// What `serde_json::to_vec` makes of the unit value: the four bytes of `null`. Writing
/// them to memory does not fail.
#[verifier::external_body]
fn encode_unit() -> (bytes: Result<Vec<u8>, String>)
    ensures
        bytes matches Ok(bytes) && bytes@ == null_bytes(),
{
    serde_json::to_vec(&()).map_err(|error| error.to_string())
}

fn lists(entities: &Vec<u64>, entity: u64) -> (listed: bool)
    ensures
        listed == entities@.contains(entity),
{
    let mut i: usize = 0;
    while i < entities.len()
        invariant
            i <= entities.len(),
            forall|j: int| 0 <= j < i ==> entities@[j] != entity,
        decreases entities.len() - i,
    {
        if entities[i] == entity {
            assert(entities@[i as int] == entity);
            return true;
        }
        i += 1;
    }
    false
}

/// Why a message without a handler fails, given the method's quoted name.
pub fn no_handler_reason(quoted_method: &str, entity_id: u64) -> (reason: String)
    ensures
        reason@ == "no handler for shared method "@ + quoted_method@ + " on entity "@
            + decimal_chars(entity_id as nat),
{
    let mut reason = "no handler for shared method ".to_owned();
    reason.append(quoted_method);
    reason.append(" on entity ");
    append_decimal(&mut reason, entity_id);
    reason
}

/// The guest's end of the shared entities.
pub struct GuestShared {
    projections: NameTable<Projection>,
    names: Table<String>,
    homes: Table<Home>,
    home_bit: u64,
    next_home_id: u64,
    next_request_id: u64,
    pending_responses: Table<u64>,
    outbound: Vec<SharedOut>,
}

impl View for GuestShared {
    type V = SharedModel;

    closed spec fn view(&self) -> SharedModel {
        SharedModel {
            projections: self.projections@,
            names: self.names@,
            homes: self.homes@,
            home_bit: self.home_bit,
            next_home_id: self.next_home_id,
            next_request_id: self.next_request_id,
            pending_responses: self.pending_responses@,
            outbound: out_models(self.outbound@),
        }
    }
}

impl GuestShared {
    /// An end at which nothing is shared. `home_bit` is set in the ids of its homes.
    pub fn new(home_bit: u64) -> (shared: GuestShared)
        ensures
            shared@ == (SharedModel {
                projections: Map::empty(),
                names: Map::empty(),
                homes: Map::empty(),
                home_bit,
                next_home_id: 0,
                next_request_id: 0,
                pending_responses: Map::empty(),
                outbound: Seq::empty(),
            }),
    {
        let shared = GuestShared {
            projections: NameTable::new(),
            names: Table::new(),
            homes: Table::new(),
            home_bit,
            next_home_id: 0,
            next_request_id: 0,
            pending_responses: Table::new(),
            outbound: Vec::new(),
        };
        assert(shared@.outbound =~= Seq::empty());
        shared
    }

    fn push(&mut self, item: SharedOut)
        ensures
            final(self)@ == old(self)@.sent(item@),
    {
        self.outbound.push(item);
        assert(self@ =~= old(self)@.sent(item@));
    }

    /// Carry what is to be sent away, in order.
    pub fn take_outbound(&mut self) -> (items: Vec<SharedOut>)
        ensures
            out_models(items@) == old(self)@.outbound,
            final(self)@ == (SharedModel { outbound: Seq::empty(), ..old(self)@ }),
    {
        let mut items: Vec<SharedOut> = Vec::new();
        core::mem::swap(&mut items, &mut self.outbound);
        assert(self@ =~= (SharedModel { outbound: Seq::empty(), ..old(self)@ }));
        items
    }

    fn give_request_id(&mut self, receipt: Option<u64>) -> (request_id: Option<u64>)
        requires
            receipt is Some ==> old(self)@.next_request_id < u64::MAX,
        ensures
            request_id == old(self)@.request_id(receipt),
            final(self)@ == old(self)@.requested(receipt),
    {
        match receipt {
            Some(receipt) => {
                self.next_request_id = self.next_request_id + 1;
                let request: u64 = self.next_request_id;
                self.pending_responses.insert(request, receipt);
                Some(request)
            },
            None => None,
        }
    }

    /// Send a message to the entity bound to `name`. Before its home is announced the
    /// message waits, in order. Tells whether there is such a projection; without one the
    /// receipt is dropped.
    pub fn dispatch_outgoing(
        &mut self,
        name: &str,
        method: &str,
        payload: Vec<u8>,
        receipt: Option<u64>,
    ) -> (sent: bool)
        requires
            receipt is Some ==> old(self)@.next_request_id < u64::MAX,
        ensures
            sent == old(self)@.projections.contains_key(name@),
            final(self)@ == old(self)@.dispatched(name@, method@, payload@, receipt),
    {
        match self.projections.remove(name) {
            None => {
                assert(self@ =~= old(self)@);
                false
            },
            Some(mut projection) => {
                let ghost model = projection@;
                let entity_id = projection.entity_id;
                let request_id = self.give_request_id(receipt);
                match entity_id {
                    Some(entity_id) => {
                        self.projections.insert(name.to_owned(), projection);
                        self.push(
                            SharedOut::Message(
                                SharedMessage {
                                    entity_id,
                                    request_id,
                                    method: method.to_owned(),
                                    payload,
                                },
                            ),
                        );
                    },
                    None => {
                        let send = PendingSend { request_id, method: method.to_owned(), payload };
                        let ghost queued = send@;
                        projection.pending_sends.push(send);
                        assert(projection@.pending_sends =~= model.pending_sends.push(queued));
                        self.projections.insert(name.to_owned(), projection);
                    },
                }
                assert(self@ =~= old(self)@.dispatched(name@, method@, payload@, receipt));
                true
            },
        }
    }

    fn project(
        &mut self,
        name: &str,
        interface: &str,
        entity_id: Option<u64>,
        signal: u64,
        handles: u64,
    )
        ensures
            final(self)@ == old(self)@.projected(
                name@,
                interface@,
                entity_id,
                signal,
                handles as nat,
            ),
    {
        let projection = Projection {
            interface: interface.to_owned(),
            entity_id,
            signal,
            pending_sends: Vec::new(),
            handles,
        };
        assert(projection@.pending_sends =~= Seq::empty());
        self.projections.insert(name.to_owned(), projection);
        if let Some(entity_id) = entity_id {
            self.names.insert(entity_id, name.to_owned());
        }
    }

    /// Attach to the entity bound to `name` on the host. Returns at once; what is sent
    /// waits until the host's announcement arrives, the subscription first.
    pub fn remote(&mut self, name: &str, interface: &str, signal: u64)
        ensures
            final(self)@ == old(self)@.projected(name@, interface@, None, signal, 0).dispatched(
                name@,
                subscribe_method(),
                Seq::empty(),
                None,
            ),
    {
        self.project(name, interface, None, signal, 0);
        let nothing: Vec<u8> = Vec::new();
        assert(nothing@ =~= Seq::empty());
        self.dispatch_outgoing(name, "$subscribe", nothing, None);
    }

    /// Attach to an entity through a ref. Connecting the same ref twice gives two handles
    /// on one projection, whose signal comes back; when the last one drops, the home is
    /// told to release the entity.
    pub fn connect(&mut self, entity_id: u64, interface: &str, candidate: u64) -> (signal: u64)
        requires
            old(self)@.projections.contains_key(ref_name(entity_id))
                ==> old(self)@.projections[ref_name(entity_id)].handles < u64::MAX,
        ensures
            signal == (if old(self)@.is_held(entity_id) {
                old(self)@.projections[ref_name(entity_id)].signal
            } else {
                candidate
            }),
            final(self)@ == old(self)@.connected(entity_id, interface@, candidate),
    {
        let name = name_of_ref(entity_id);
        if let Some(mut projection) = self.projections.remove(name.as_str()) {
            if projection.handles > 0 {
                let signal: u64 = projection.signal;
                projection.handles = projection.handles + 1;
                self.projections.insert(name, projection);
                return signal;
            }
        }
        self.project(name.as_str(), interface, Some(entity_id), candidate, 1);
        assert(self@ =~= old(self)@.projected(
            ref_name(entity_id),
            interface@,
            Some(entity_id),
            candidate,
            1,
        ));
        let nothing: Vec<u8> = Vec::new();
        assert(nothing@ =~= Seq::empty());
        self.dispatch_outgoing(name.as_str(), "$subscribe", nothing, None);
        candidate
    }

    /// One more handle on the projection of a ref.
    pub fn clone_handle(&mut self, entity_id: u64)
        requires
            old(self)@.projections.contains_key(ref_name(entity_id)),
            0 < old(self)@.projections[ref_name(entity_id)].handles < u64::MAX,
        ensures
            final(self)@ == old(self)@.with_handles(
                entity_id,
                old(self)@.projections[ref_name(entity_id)].handles + 1,
            ),
    {
        let name = name_of_ref(entity_id);
        if let Some(mut projection) = self.projections.remove(name.as_str()) {
            projection.handles = projection.handles + 1;
            self.projections.insert(name, projection);
        }
    }

    /// Give a handle on the projection of a ref back. The last one releases the
    /// capability.
    pub fn drop_handle(&mut self, entity_id: u64)
        requires
            old(self)@.projections.contains_key(ref_name(entity_id)),
            0 < old(self)@.projections[ref_name(entity_id)].handles,
        ensures
            final(self)@ == old(self)@.dropped(entity_id),
    {
        let name = name_of_ref(entity_id);
        let mut last = false;
        if let Some(mut projection) = self.projections.remove(name.as_str()) {
            projection.handles = projection.handles - 1;
            last = projection.handles == 0;
            self.projections.insert(name.clone(), projection);
        }
        if last {
            let nothing: Vec<u8> = Vec::new();
            assert(nothing@ =~= Seq::empty());
            self.dispatch_outgoing(name.as_str(), "$release", nothing, None);
            if let Some(projection) = self.projections.remove(name.as_str()) {
                if let Some(entity_id) = projection.entity_id {
                    let _ = self.names.remove(entity_id);
                }
            }
        }
    }

    /// The receipt waiting on an arriving response; none where nobody waits.
    pub fn response_delivered(&mut self, request_id: u64) -> (receipt: Option<u64>)
        ensures
            final(self)@ == (SharedModel {
                pending_responses: old(self)@.pending_responses.remove(request_id),
                ..old(self)@
            }),
            receipt == (if old(self)@.pending_responses.contains_key(request_id) {
                Some(old(self)@.pending_responses[request_id])
            } else {
                None
            }),
    {
        self.pending_responses.remove(request_id)
    }

    /// Mint the id of the next home.
    fn reserve_home_id(&mut self) -> (id: u64)
        requires
            old(self)@.next_home_id < u64::MAX,
        ensures
            id == old(self)@.fresh_home_id(),
            final(self)@ == (SharedModel {
                next_home_id: (old(self)@.next_home_id + 1) as u64,
                ..old(self)@
            }),
    {
        self.next_home_id = self.next_home_id + 1;
        self.home_bit | self.next_home_id
    }

    fn install_home(&mut self, methods: Methods, strong: Option<u64>) -> (id: u64)
        requires
            old(self)@.next_home_id < u64::MAX,
        ensures
            id == old(self)@.fresh_home_id(),
            final(self)@ == old(self)@.homed(methods@, strong),
    {
        let id: u64 = self.reserve_home_id();
        let home = Home { methods, subscribed: false, strong };
        self.homes.insert(id, home);
        id
    }

    /// Share an entity with the host under a well-known name.
    pub fn share(&mut self, interface: &str, name: &str, methods: Methods) -> (id: u64)
        requires
            old(self)@.next_home_id < u64::MAX,
        ensures
            id == old(self)@.fresh_home_id(),
            final(self)@ == old(self)@.homed(methods@, None).sent(
                SharedOutModel::Announce { homed: id, interface: interface@, bound: name@ },
            ),
    {
        let id: u64 = self.install_home(methods, None);
        self.push(
            SharedOut::Announce(
                SharedEntityAnnouncement {
                    entity_id: id,
                    interface: interface.to_owned(),
                    name: name.to_owned(),
                },
            ),
        );
        id
    }

    /// Share an entity anonymously, to be handed out as a ref. It is held alive until the
    /// ref is released.
    pub fn share_anonymous(&mut self, entity: u64, methods: Methods) -> (id: u64)
        requires
            old(self)@.next_home_id < u64::MAX,
        ensures
            id == old(self)@.fresh_home_id(),
            final(self)@ == old(self)@.homed(methods@, Some(entity)),
    {
        self.install_home(methods, Some(entity))
    }

    /// Send one event from a home to the host's remotes, if the host holds any.
    pub fn emit_home_event(&mut self, entity_id: u64, event: &str, payload: Vec<u8>)
        ensures
            final(self)@ == old(self)@.emitted(entity_id, event@, payload@),
    {
        let subscribed = match self.homes.get(entity_id) {
            Some(home) => home.subscribed,
            None => false,
        };
        if subscribed {
            self.push(SharedOut::Event { entity_id, name: event.to_owned(), payload });
        }
    }

    /// A home of the host was announced: bind it to a waiting projection of that name and
    /// interface, and send what waited, in order.
    pub fn entity_announced(&mut self, announcement: SharedEntityAnnouncement)
        ensures
            final(self)@ == old(self)@.announced(
                announcement.entity_id,
                announcement.interface@,
                announcement.name@,
            ),
    {
        let name = announcement.name;
        let entity_id: u64 = announcement.entity_id;
        let mut projection = match self.projections.remove(name.as_str()) {
            Some(projection) => projection,
            None => {
                assert(self@ =~= old(self)@);
                return ;
            },
        };
        if !same_text(projection.interface.as_str(), announcement.interface.as_str()) {
            self.projections.insert(name, projection);
            assert(self@ =~= old(self)@);
            return ;
        }
        let mut sends: Vec<PendingSend> = Vec::new();
        core::mem::swap(&mut sends, &mut projection.pending_sends);
        projection.entity_id = Some(entity_id);
        let ghost waiting = send_models(sends@);
        assert(projection@.pending_sends =~= Seq::empty());
        self.names.insert(entity_id, name.clone());
        self.projections.insert(name, projection);
        let ghost start = self@;
        let ghost each = |send: SendModel| send.addressed(entity_id);
        assert(start.outbound + waiting.take(0).map_values(each) =~= start.outbound);
        for send in it: sends
            invariant
                it.seq() == sends@,
                waiting == send_models(sends@),
                each == (|send: SendModel| send.addressed(entity_id)),
                self@ == (SharedModel {
                    outbound: start.outbound + waiting.take(it.index() as int).map_values(each),
                    ..start
                }),
        {
            let ghost index = it.index() as int;
            assert(send@ == waiting[index]);
            self.push(
                SharedOut::Message(
                    SharedMessage {
                        entity_id,
                        request_id: send.request_id,
                        method: send.method,
                        payload: send.payload,
                    },
                ),
            );
            assert(self@.outbound =~= start.outbound + waiting.take(index + 1).map_values(each));
        }
        assert(waiting.take(waiting.len() as int) =~= waiting);
        assert(self@ =~= old(self)@.announced(
            entity_id,
            announcement.interface@,
            announcement.name@,
        ));
    }

    /// An event of a host home arrived: what it does to the projection's signal.
    pub fn event_delivered(&self, entity_id: u64, name: String, payload: Vec<u8>) -> (action:
        SignalAction)
        ensures
            match (self@.listening(entity_id), action) {
                (None, SignalAction::Unknown) => true,
                (Some(projection), SignalAction::Notify { signal }) => name@ == "$notify"@
                    && signal == projection.signal,
                (Some(projection), SignalAction::Emit { signal, name: emitted, payload: data }) => {
                    name@ != "$notify"@ && signal == projection.signal && emitted == name && data
                        == payload
                },
                _ => false,
            },
    {
        let bound = match self.names.get(entity_id) {
            Some(bound) => bound,
            None => {
                return SignalAction::Unknown;
            },
        };
        match self.projections.get(bound.as_str()) {
            Some(projection) => if same_text(name.as_str(), "$notify") {
                SignalAction::Notify { signal: projection.signal }
            } else {
                SignalAction::Emit { signal: projection.signal, name, payload }
            },
            None => SignalAction::Unknown,
        }
    }

    /// A message of the host arrived: a control message is obeyed and answered, one with a
    /// handler is to be dispatched, anything else fails.
    pub fn message_delivered(&mut self, message: SharedMessage) -> (step: MessageStep)
        ensures
            final(self)@ == old(self)@.message_arrived(
                message.entity_id,
                message.request_id,
                message.method@,
            ),
            step == (match old(self)@.message_handler(message.entity_id, message.method@) {
                Some(handler) => MessageStep::Dispatch { handler, message },
                None => MessageStep::Answered,
            }),
    {
        let entity_id: u64 = message.entity_id;
        let subscribe = same_text(message.method.as_str(), "$subscribe");
        let release = same_text(message.method.as_str(), "$release");
        let handler = match self.homes.get(entity_id) {
            Some(home) => if subscribe || release {
                None
            } else {
                home.methods.find(message.method.as_str())
            },
            None => None,
        };
        if let Some(handler) = handler {
            return MessageStep::Dispatch { handler, message };
        }
        let ghost arrived = self@;
        proof {
            reveal_strlit("$subscribe");
            reveal_strlit("$release");
            assert(subscribe_method().len() == 10 && release_method().len() == 8);
        }
        match self.homes.remove(entity_id) {
            Some(mut home) => {
                if subscribe {
                    home.subscribed = true;
                    self.homes.insert(entity_id, home);
                    let nothing: Vec<u8> = Vec::new();
                    assert(nothing@ =~= Seq::empty());
                    self.emit_home_event(entity_id, "$notify", nothing);
                    let outcome = encode_unit();
                    self.respond(message.request_id, outcome);
                } else if release {
                    home.subscribed = false;
                    home.strong = None;
                    self.homes.insert(entity_id, home);
                    let outcome = encode_unit();
                    self.respond(message.request_id, outcome);
                } else {
                    self.homes.insert(entity_id, home);
                    assert(self@ =~= arrived);
                    let shown = quoted(message.method.as_str());
                    self.respond(
                        message.request_id,
                        Err(no_handler_reason(shown.as_str(), entity_id)),
                    );
                }
            },
            None => {
                assert(self@ =~= arrived);
                let shown = quoted(message.method.as_str());
                self.respond(
                    message.request_id,
                    Err(no_handler_reason(shown.as_str(), entity_id)),
                );
            },
        }
        assert(self@ =~= arrived.message_arrived(entity_id, message.request_id, message.method@));
        MessageStep::Answered
    }

    /// The entity a home's handlers speak for: it answers while this end holds it for the
    /// other, or something else keeps it alive. `live` lists the entities that does.
    pub fn answering_entity(&self, entity_id: u64, entity: u64, live: &Vec<u64>) -> (answering:
        Result<u64, String>)
        ensures
            match answering {
                Ok(answering) => answering == entity && self@.answers(entity_id, entity, live@),
                Err(reason) => !self@.answers(entity_id, entity, live@) && reason@
                    == "entity released"@,
            },
    {
        if let Some(home) = self.homes.get(entity_id) {
            if home.strong == Some(entity) || lists(live, entity) {
                return Ok(entity);
            }
        }
        Err("entity released".to_owned())
    }

    /// Answer a message.
    pub fn respond(&mut self, request_id: Option<u64>, outcome: Result<Vec<u8>, String>)
        ensures
            final(self)@ == old(self)@.answered(request_id, bytes_outcome(outcome)),
    {
        if let Some(request_id) = request_id {
            self.push(SharedOut::Response { request_id, outcome });
        }
    }
}

/// A message to be sent, and the receipt its response is for, where it wants one.
#[verifier::ext_equal]
pub struct OutgoingModel {
    pub method: Seq<char>,
    pub payload: Seq<u8>,
    pub receipt: Option<u64>,
}

impl SharedModel {
    /// The state after some messages were sent to `name`, in order.
    pub open spec fn dispatched_all(self, name: Seq<char>, messages: Seq<OutgoingModel>) -> SharedModel
        decreases messages.len(),
    {
        if messages.len() == 0 {
            self
        } else {
            let last = messages.last();
            self.dispatched_all(name, messages.drop_last()).dispatched(
                name,
                last.method,
                last.payload,
                last.receipt,
            )
        }
    }

    /// The state after request ids were given out for the receipts of some messages.
    pub open spec fn requested_all(self, messages: Seq<OutgoingModel>) -> SharedModel
        decreases messages.len(),
    {
        if messages.len() == 0 {
            self
        } else {
            self.requested_all(messages.drop_last()).requested(messages.last().receipt)
        }
    }

    /// Some messages with the request ids they go by, in order.
    pub open spec fn numbered(self, messages: Seq<OutgoingModel>) -> Seq<SendModel>
        decreases messages.len(),
    {
        if messages.len() == 0 {
            Seq::empty()
        } else {
            let last = messages.last();
            self.numbered(messages.drop_last()).push(
                SendModel {
                    request_id: self.requested_all(messages.drop_last()).request_id(last.receipt),
                    method: last.method,
                    payload: last.payload,
                },
            )
        }
    }
}

/// Giving out request ids counts up, and files each receipt under its message's id.
proof fn lemma_receipts_are_filed(end: SharedModel, messages: Seq<OutgoingModel>)
    requires
        end.next_request_id + messages.len() <= u64::MAX,
    ensures
        ({
            let after = end.requested_all(messages);
            let sends = end.numbered(messages);
            &&& after == (SharedModel {
                next_request_id: after.next_request_id,
                pending_responses: after.pending_responses,
                ..end
            })
            &&& end.next_request_id <= after.next_request_id <= end.next_request_id
                + messages.len()
            &&& sends.len() == messages.len()
            &&& forall|i: int|
                0 <= i < messages.len() ==> {
                    &&& (#[trigger] sends[i]).method == messages[i].method
                    &&& sends[i].payload == messages[i].payload
                    &&& sends[i].request_id is Some <==> messages[i].receipt is Some
                    &&& messages[i].receipt matches Some(receipt) ==> {
                        let request = sends[i].request_id->0;
                        &&& end.next_request_id < request <= after.next_request_id
                        &&& after.pending_responses.contains_key(request)
                        &&& after.pending_responses[request] == receipt
                    }
                }
        }),
    decreases messages.len(),
{
    if messages.len() > 0 {
        let rest = messages.drop_last();
        lemma_receipts_are_filed(end, rest);
        let before = end.numbered(rest);
        let sends = end.numbered(messages);
        assert forall|i: int| 0 <= i < rest.len() implies #[trigger] sends[i] == before[i]
            && messages[i] == rest[i] by {}
    }
}

/// What is sent to an entity before its home is known waits, all of it and in order, and
/// goes out in that order when the home is announced, each message with the request id its
/// receipt is settled under.
pub proof fn early_sends_go_out_in_order(
    end: SharedModel,
    name: Seq<char>,
    messages: Seq<OutgoingModel>,
    entity_id: u64,
)
    requires
        end.projections.contains_key(name),
        end.projections[name].entity_id is None,
        end.next_request_id + messages.len() <= u64::MAX,
    ensures
        ({
            let waiting = end.dispatched_all(name, messages);
            let projection = end.projections[name];
            let sends = end.numbered(messages);
            let all = projection.pending_sends + sends;
            let announced = waiting.announced(entity_id, projection.interface, name);
            &&& waiting == (SharedModel {
                projections: end.projections.insert(
                    name,
                    SharedProjectionModel { pending_sends: all, ..projection },
                ),
                ..end.requested_all(messages)
            })
            &&& waiting.outbound == end.outbound
            &&& announced.outbound == end.outbound + all.map_values(
                |send: SendModel| send.addressed(entity_id),
            )
            &&& sends.len() == messages.len()
            &&& forall|i: int|
                0 <= i < messages.len() ==> {
                    &&& (#[trigger] sends[i]).method == messages[i].method
                    &&& sends[i].payload == messages[i].payload
                    &&& sends[i].request_id is Some <==> messages[i].receipt is Some
                    &&& messages[i].receipt matches Some(receipt) ==> {
                        let request = sends[i].request_id->0;
                        &&& announced.pending_responses.contains_key(request)
                        &&& announced.pending_responses[request] == receipt
                    }
                }
        }),
    decreases messages.len(),
{
    let projection = end.projections[name];
    let sends = end.numbered(messages);
    lemma_receipts_are_filed(end, messages);
    if messages.len() == 0 {
        assert(projection.pending_sends + sends =~= projection.pending_sends);
    } else {
        let rest = messages.drop_last();
        early_sends_go_out_in_order(end, name, rest, entity_id);
        lemma_receipts_are_filed(end, rest);
        assert((projection.pending_sends + end.numbered(rest)).push(sends.last())
            =~= projection.pending_sends + sends);
    }
    assert(end.dispatched_all(name, messages) =~= (SharedModel {
        projections: end.projections.insert(
            name,
            SharedProjectionModel {
                pending_sends: projection.pending_sends + sends,
                ..projection
            },
        ),
        ..end.requested_all(messages)
    }));
}

/// Homes of one end get ids of their own, as long as counting does not reach the bit that
/// marks them.
pub proof fn home_ids_are_distinct(home_bit: u64, a: u64, b: u64)
    requires
        a & home_bit == 0,
        b & home_bit == 0,
        a != b,
    ensures
        home_bit | a != home_bit | b,
{
    assert(home_bit | a != home_bit | b) by (bit_vector)
        requires
            a & home_bit == 0,
            b & home_bit == 0,
            a != b,
    ;
}

/// What goes to the other end is told under its own name: whose message it is, what it asks
/// and carries, which request is answered and how, whose event it is, which home is made
/// known and as what.
pub proof fn items_hold_what_they_say(item: SharedOut)
    ensures
        match item {
            SharedOut::Message(message) => item@ == (SharedOutModel::Message {
                entity_id: message.entity_id,
                request_id: message.request_id,
                method: message.method@,
                payload: message.payload@,
            }),
            SharedOut::Response { request_id, outcome } => {
                &&& item@ matches SharedOutModel::Response { answers, outcome: said }
                &&& answers == request_id
                &&& match outcome {
                    Ok(bytes) => said == Ok::<Seq<u8>, Seq<char>>(bytes@),
                    Err(error) => said == Err::<Seq<u8>, Seq<char>>(error@),
                }
            },
            SharedOut::Event { entity_id, name, payload } => item@ == (SharedOutModel::Event {
                home: entity_id,
                name: name@,
                data: payload@,
            }),
            SharedOut::Announce(announcement) => item@ == (SharedOutModel::Announce {
                homed: announcement.entity_id,
                interface: announcement.interface@,
                bound: announcement.name@,
            }),
        },
{
}

/// A message that waits keeps its method, its payload and its request id, and goes to the
/// home that was announced.
pub proof fn waiting_messages_are_kept_whole(send: PendingSend, entity_id: u64)
    ensures
        send@.addressed(entity_id) matches SharedOutModel::Message {
            entity_id: home,
            request_id,
            method,
            payload,
        } && {
            &&& home == entity_id
            &&& request_id == send.request_id
            &&& method == send.method@
            &&& payload == send.payload@
        },
{
}

/// A method is answered by its own handler; by the wildcard's just where it has none; and by
/// nobody where there is no wildcard either.
pub proof fn wildcards_answer_the_rest(methods: Map<Seq<char>, u64>, method: Seq<char>)
    ensures
        methods.contains_key(method) ==> handler_for(methods, method) == Some(methods[method]),
        !methods.contains_key(method) && methods.contains_key("*"@) ==> handler_for(
            methods,
            method,
        ) == Some(methods["*"@]),
        !methods.contains_key(method) && !methods.contains_key("*"@) ==> handler_for(
            methods,
            method,
        ) is None,
{
}

/// A message to a known home goes out at once, behind all sent before, with its method and
/// payload; it has a request id just where somebody waits, and then that one waits on it.
/// One to a home that is not known waits behind those that wait already, and is not sent.
pub proof fn messages_carry_what_was_said(
    end: SharedModel,
    name: Seq<char>,
    method: Seq<char>,
    payload: Seq<u8>,
    receipt: Option<u64>,
)
    requires
        end.projections.contains_key(name),
        end.next_request_id < u64::MAX,
    ensures
        ({
            let after = end.dispatched(name, method, payload, receipt);
            let request = end.next_request_id + 1;
            &&& receipt matches Some(waiting) ==> after.next_request_id == request
                && after.pending_responses.contains_key(after.next_request_id)
                && after.pending_responses[after.next_request_id] == waiting
            &&& receipt is None ==> after.pending_responses == end.pending_responses
            &&& end.projections[name].entity_id matches Some(home) ==> {
                &&& after.outbound.len() == end.outbound.len() + 1
                &&& after.outbound.drop_last() == end.outbound
                &&& after.outbound.last() matches SharedOutModel::Message {
                    entity_id,
                    request_id,
                    method: said,
                    payload: carried,
                }
                &&& entity_id == home
                &&& said == method
                &&& carried == payload
                &&& request_id is Some <==> receipt is Some
                &&& request_id matches Some(asked) ==> asked == request
            }
            &&& end.projections[name].entity_id is None ==> {
                let waiting = after.projections[name].pending_sends;
                &&& after.outbound == end.outbound
                &&& waiting.len() == end.projections[name].pending_sends.len() + 1
                &&& waiting.drop_last() == end.projections[name].pending_sends
                &&& waiting.last().method == method
                &&& waiting.last().payload == payload
                &&& waiting.last().request_id is Some <==> receipt is Some
                &&& waiting.last().request_id matches Some(asked) ==> asked == request
            }
        }),
{
    let after = end.dispatched(name, method, payload, receipt);
    if end.projections[name].entity_id is Some {
        assert(after.outbound.drop_last() =~= end.outbound);
    } else {
        assert(after.projections[name].pending_sends.drop_last()
            =~= end.projections[name].pending_sends);
    }
}

/// The first handle on a ref subscribes to its home, and the last one given back releases
/// it; the handles between are counted and send nothing.
pub proof fn refs_are_subscribed_and_released(
    end: SharedModel,
    entity_id: u64,
    interface: Seq<char>,
    candidate: u64,
)
    ensures
        ({
            let name = "#"@ + decimal_chars(entity_id as nat);
            let held = end.projections.contains_key(name) && end.projections[name].handles > 0;
            let more = end.connected(entity_id, interface, candidate);
            &&& !held ==> {
                &&& more.projections.contains_key(name)
                &&& more.projections[name].interface == interface
                &&& more.projections[name].entity_id == Some(entity_id)
                &&& more.projections[name].signal == candidate
                &&& more.projections[name].handles == 1
                &&& more.names[entity_id] == name
                &&& more.outbound.len() == end.outbound.len() + 1
                &&& more.outbound.last() matches SharedOutModel::Message {
                    entity_id: home,
                    request_id,
                    method,
                    payload,
                }
                &&& home == entity_id
                &&& request_id is None
                &&& method == "$subscribe"@
                &&& payload.len() == 0
            }
            &&& held ==> {
                let fewer = end.dropped(entity_id);
                &&& more.projections[name].handles == end.projections[name].handles + 1
                &&& more.projections[name].signal == end.projections[name].signal
                &&& more.outbound == end.outbound
                &&& end.projections[name].handles > 1 ==> fewer.outbound == end.outbound
                    && fewer.projections[name].handles == end.projections[name].handles - 1
                &&& end.projections[name].handles == 1 ==> !fewer.projections.contains_key(name)
                &&& end.projections[name].handles == 1 && end.projections[name].entity_id == Some(
                    entity_id,
                ) ==> {
                    &&& !fewer.names.contains_key(entity_id)
                    &&& fewer.outbound.len() == end.outbound.len() + 1
                    &&& fewer.outbound.last() matches SharedOutModel::Message {
                        entity_id: home,
                        request_id,
                        method,
                        payload,
                    }
                    &&& home == entity_id
                    &&& request_id is None
                    &&& method == "$release"@
                    &&& payload.len() == 0
                }
            }
        }),
{
    assert(ref_name(entity_id) == "#"@ + decimal_chars(entity_id as nat));
}

/// An event goes out, as it was emitted, just while the other end listens.
pub proof fn events_go_out_while_listened_to(
    end: SharedModel,
    entity_id: u64,
    event: Seq<char>,
    payload: Seq<u8>,
)
    ensures
        ({
            let after = end.emitted(entity_id, event, payload);
            let heard = end.homes.contains_key(entity_id) && end.homes[entity_id].subscribed;
            &&& !heard ==> after == end
            &&& heard ==> {
                &&& after.outbound.len() == end.outbound.len() + 1
                &&& after.outbound.drop_last() == end.outbound
                &&& after.outbound.last() == (SharedOutModel::Event {
                    home: entity_id,
                    name: event,
                    data: payload,
                })
            }
        }),
{
    let after = end.emitted(entity_id, event, payload);
    if end.homes.contains_key(entity_id) && end.homes[entity_id].subscribed {
        assert(after.outbound.drop_last() =~= end.outbound);
    }
}

/// An announcement binds the projection of its name just where the interface is the one
/// waited for; the entity's events are for that projection from then on.
pub proof fn announcements_bind_by_name_and_interface(
    end: SharedModel,
    entity_id: u64,
    interface: Seq<char>,
    name: Seq<char>,
)
    ensures
        ({
            let after = end.announced(entity_id, interface, name);
            let waited_for = end.projections.contains_key(name) && end.projections[name].interface
                == interface;
            &&& !waited_for ==> after == end
            &&& waited_for ==> {
                &&& after.projections[name].entity_id == Some(entity_id)
                &&& after.projections[name].signal == end.projections[name].signal
                &&& after.projections[name].interface == interface
                &&& after.projections[name].handles == end.projections[name].handles
                &&& after.projections[name].pending_sends.len() == 0
                &&& after.listening(entity_id) == Some(after.projections[name])
                &&& after.outbound.len() == end.outbound.len()
                    + end.projections[name].pending_sends.len()
            }
        }),
{
}

/// A subscription is noted, answered, and followed by one notify; a release ends it and lets
/// the entity go. A message for a handler is handed to it and answered by nobody else; one
/// that nobody handles fails and says of which method and home.
pub proof fn control_messages_are_obeyed(
    end: SharedModel,
    entity_id: u64,
    request_id: Option<u64>,
    method: Seq<char>,
)
    ensures
        ({
            let after = end.message_arrived(entity_id, request_id, method);
            let homed = end.homes.contains_key(entity_id);
            let sent = end.outbound.len() as int;
            let control = method == "$subscribe"@ || method == "$release"@;
            &&& homed && method == "$subscribe"@ ==> {
                &&& after.homes[entity_id].subscribed
                &&& after.homes[entity_id].strong == end.homes[entity_id].strong
                &&& after.homes[entity_id].methods == end.homes[entity_id].methods
                &&& after.outbound[sent] matches SharedOutModel::Event { home, name, data }
                &&& home == entity_id
                &&& name == "$notify"@
                &&& data.len() == 0
                &&& request_id is None ==> after.outbound.len() == sent + 1
                &&& request_id matches Some(asked) ==> after.outbound.len() == sent + 2
                    && after.outbound[sent + 1] == (SharedOutModel::Response {
                    answers: asked,
                    outcome: Ok(null_bytes()),
                })
            }
            &&& homed && method == "$release"@ ==> {
                &&& !after.homes[entity_id].subscribed
                &&& after.homes[entity_id].strong is None
                &&& after.homes[entity_id].methods == end.homes[entity_id].methods
                &&& request_id is None ==> after.outbound == end.outbound
                &&& request_id matches Some(asked) ==> after.outbound.len() == sent + 1
                    && after.outbound[sent] == (SharedOutModel::Response {
                    answers: asked,
                    outcome: Ok(null_bytes()),
                })
            }
            &&& homed && !control && end.homes[entity_id].methods.contains_key(method) ==> after
                == end && end.message_handler(entity_id, method) == Some(
                end.homes[entity_id].methods[method],
            )
            &&& control || !homed ==> end.message_handler(entity_id, method) is None
            &&& end.message_handler(entity_id, method) is None && !(homed && control) ==> {
                &&& request_id is None ==> after.outbound == end.outbound
                &&& request_id matches Some(asked) ==> {
                    &&& after.outbound.len() == sent + 1
                    &&& after.outbound[sent] == (SharedOutModel::Response {
                        answers: asked,
                        outcome: Err(
                            "no handler for shared method "@ + debug_text(method) + " on entity "@
                                + decimal_chars(entity_id as nat),
                        ),
                    })
                }
            }
        }),
{
    reveal_strlit("$subscribe");
    reveal_strlit("$release");
    assert("$subscribe"@.len() != "$release"@.len());
}

/// A home gets the next number, marked with its end's bit, and answers for its entity while
/// it keeps it or something else does.
pub proof fn homes_are_numbered_and_marked(
    end: SharedModel,
    methods: Map<Seq<char>, u64>,
    strong: Option<u64>,
    entity: u64,
    live: Seq<u64>,
)
    requires
        end.next_home_id < u64::MAX,
    ensures
        ({
            let after = end.homed(methods, strong);
            let id = end.home_bit | ((end.next_home_id + 1) as u64);
            &&& end.fresh_home_id() == id
            &&& after.next_home_id == end.next_home_id + 1
            &&& after.homes.contains_key(id)
            &&& after.homes[id].methods == methods
            &&& !after.homes[id].subscribed
            &&& after.homes[id].strong == strong
            &&& strong == Some(entity) || live.contains(entity) <==> after.answers(
                id,
                entity,
                live,
            )
        }),
{
}

} // verus!
