//! Entities shared by name, at the host's end: homes with dispatch tables, and the
//! bookkeeping for remotes to guest-homed entities.

use vstd::prelude::*;
use vstd::string::*;
use crate::capabilities::{debug_text, quoted};
use crate::name_table::NameTable;
use crate::shared_guest::{
    handler_for, send_models, Methods, PendingSend, SendModel, SharedEntityAnnouncement,
};
use crate::table::Table;
use crate::text::{append_decimal, decimal_chars, same_text};

verus! {

/// An entity homed on the host.
pub struct HostSharedEntity {
    name: String,
    interface: String,
    methods: Methods,
    /// Whether the guest holds a live remote; events only flow while it does.
    pub subscribed: bool,
    /// Anonymous shares keep their entity alive until released; named shares borrow.
    pub strong: Option<u64>,
}

/// What a [`HostSharedEntity`] holds.
#[verifier::ext_equal]
pub struct HostHomeModel {
    pub name: Seq<char>,
    pub interface: Seq<char>,
    pub methods: Map<Seq<char>, u64>,
    pub subscribed: bool,
    pub strong: Option<u64>,
}

impl View for HostSharedEntity {
    type V = HostHomeModel;

    closed spec fn view(&self) -> HostHomeModel {
        HostHomeModel {
            name: self.name@,
            interface: self.interface@,
            methods: self.methods@,
            subscribed: self.subscribed,
            strong: self.strong,
        }
    }
}

impl HostSharedEntity {
    /// An entity nobody listens to yet.
    pub fn new(name: String, interface: String, methods: Methods, strong: Option<u64>) -> (entity:
        HostSharedEntity)
        ensures
            entity@ == (HostHomeModel {
                name: name@,
                interface: interface@,
                methods: methods@,
                subscribed: false,
                strong,
            }),
    {
        HostSharedEntity { name, interface, methods, subscribed: false, strong }
    }
}

/// The host's projection of a guest-homed entity.
pub struct HostProjection {
    interface: String,
    entity_id: Option<u64>,
    signal: u64,
    pending_sends: Vec<PendingSend>,
}

/// What a [`HostProjection`] holds.
#[verifier::ext_equal]
pub struct HostProjectionModel {
    pub interface: Seq<char>,
    pub entity_id: Option<u64>,
    /// Where incoming events land.
    pub signal: u64,
    /// What waits for the home to be known, in order.
    pub pending_sends: Seq<SendModel>,
}

impl View for HostProjection {
    type V = HostProjectionModel;

    closed spec fn view(&self) -> HostProjectionModel {
        HostProjectionModel {
            interface: self.interface@,
            entity_id: self.entity_id,
            signal: self.signal,
            pending_sends: send_models(self.pending_sends@),
        }
    }
}

/// What an announcement holds.
#[verifier::ext_equal]
pub struct AnnouncementModel {
    pub entity_id: u64,
    pub interface: Seq<char>,
    pub name: Seq<char>,
}

impl View for SharedEntityAnnouncement {
    type V = AnnouncementModel;

    open spec fn view(&self) -> AnnouncementModel {
        AnnouncementModel {
            entity_id: self.entity_id,
            interface: self.interface@,
            name: self.name@,
        }
    }
}

/// The state of the host's end.
#[verifier::ext_equal]
pub struct HostSharedModel {
    pub next_entity_id: u64,
    pub homes: Map<u64, HostHomeModel>,
    pub projections: Map<Seq<char>, HostProjectionModel>,
    pub names: Map<u64, Seq<char>>,
    /// Guest announcements that arrived before the host attached a remote.
    pub unclaimed: Map<Seq<char>, AnnouncementModel>,
}

/// Why a message to an id without a home fails.
pub open spec fn unknown_entity(entity_id: u64) -> Seq<char> {
    "message for unknown shared entity "@ + decimal_chars(entity_id as nat)
}

/// Why a message without a handler fails, given the quoted names.
pub open spec fn no_method(name: Seq<char>, interface: Seq<char>, method: Seq<char>) -> Seq<char> {
    "shared entity "@ + name + " ("@ + interface + ") has no method "@ + method
}

/// What a failure of a handler is headed by, given the quoted names.
pub open spec fn dispatch_context(method: Seq<char>, name: Seq<char>) -> Seq<char> {
    "dispatching "@ + method + " to shared entity "@ + name
}

impl HostSharedModel {
    /// The state with a fresh projection of `name`, in place of one it had.
    pub open spec fn projected(
        self,
        name: Seq<char>,
        interface: Seq<char>,
        signal: u64,
        entity_id: Option<u64>,
    ) -> HostSharedModel {
        HostSharedModel {
            projections: self.projections.insert(
                name,
                HostProjectionModel { interface, entity_id, signal, pending_sends: Seq::empty() },
            ),
            ..self
        }
    }

    /// The state after an announcement arrived: bound to a waiting projection of that name
    /// and interface; kept for later where there is none of that name; ignored where the
    /// interface differs.
    pub open spec fn bound(self, announcement: AnnouncementModel) -> HostSharedModel {
        let name = announcement.name;
        if !self.projections.contains_key(name) {
            HostSharedModel { unclaimed: self.unclaimed.insert(name, announcement), ..self }
        } else if self.projections[name].interface != announcement.interface {
            self
        } else {
            HostSharedModel {
                projections: self.projections.insert(
                    name,
                    HostProjectionModel {
                        entity_id: Some(announcement.entity_id),
                        pending_sends: Seq::empty(),
                        ..self.projections[name]
                    },
                ),
                names: self.names.insert(announcement.entity_id, name),
                ..self
            }
        }
    }

    /// Who answers a message, or why nobody does.
    pub open spec fn dispatched(self, entity_id: u64, method: Seq<char>) -> Result<u64, Seq<char>> {
        if !self.homes.contains_key(entity_id) {
            Err(unknown_entity(entity_id))
        } else {
            let home = self.homes[entity_id];
            match handler_for(home.methods, method) {
                Some(handler) => Ok(handler),
                None => Err(
                    no_method(debug_text(home.name), home.interface, debug_text(method)),
                ),
            }
        }
    }
}

/// Why a message without a handler fails, given the quoted names.
pub fn no_method_reason(quoted_name: &str, interface: &str, quoted_method: &str) -> (reason: String)
    ensures
        reason@ == no_method(quoted_name@, interface@, quoted_method@),
{
    let mut reason = "shared entity ".to_owned();
    reason.append(quoted_name);
    reason.append(" (");
    reason.append(interface);
    reason.append(") has no method ");
    reason.append(quoted_method);
    reason
}

/// What a failure of a handler is headed by, given the quoted names.
pub fn dispatch_heading(quoted_method: &str, quoted_name: &str) -> (heading: String)
    ensures
        heading@ == dispatch_context(quoted_method@, quoted_name@),
{
    let mut heading = "dispatching ".to_owned();
    heading.append(quoted_method);
    heading.append(" to shared entity ");
    heading.append(quoted_name);
    heading
}

/// Who answers a message, and what a failure of theirs is headed by.
#[derive(Debug, PartialEq)]
pub struct Dispatched {
    pub handler: u64,
    pub context: String,
}

/// The host's end of the shared entities.
pub struct HostShared {
    next_entity_id: u64,
    homes: Table<HostSharedEntity>,
    projections_by_name: NameTable<HostProjection>,
    projection_names_by_id: Table<String>,
    unclaimed_announcements: NameTable<SharedEntityAnnouncement>,
}

impl View for HostShared {
    type V = HostSharedModel;

    closed spec fn view(&self) -> HostSharedModel {
        HostSharedModel {
            next_entity_id: self.next_entity_id,
            homes: self.homes@,
            projections: self.projections_by_name@,
            names: self.projection_names_by_id@,
            unclaimed: self.unclaimed_announcements@,
        }
    }
}

impl HostShared {
    /// An end at which nothing is shared.
    pub fn new() -> (shared: HostShared)
        ensures
            shared@ == (HostSharedModel {
                next_entity_id: 0,
                homes: Map::empty(),
                projections: Map::empty(),
                names: Map::empty(),
                unclaimed: Map::empty(),
            }),
    {
        HostShared {
            next_entity_id: 0,
            homes: Table::new(),
            projections_by_name: NameTable::new(),
            projection_names_by_id: Table::new(),
            unclaimed_announcements: NameTable::new(),
        }
    }

    /// Mint an entity id before the entity record exists, so event-forwarding
    /// subscriptions can capture it.
    pub fn reserve_entity_id(&mut self) -> (id: u64)
        requires
            old(self)@.next_entity_id < u64::MAX,
        ensures
            id == old(self)@.next_entity_id + 1,
            final(self)@ == (HostSharedModel { next_entity_id: id, ..old(self)@ }),
    {
        self.next_entity_id = self.next_entity_id + 1;
        self.next_entity_id
    }

    /// Install a home, in place of one at that id.
    pub fn insert_home(&mut self, entity_id: u64, entity: HostSharedEntity)
        ensures
            final(self)@ == (HostSharedModel {
                homes: old(self)@.homes.insert(entity_id, entity@),
                ..old(self)@
            }),
    {
        self.homes.insert(entity_id, entity);
    }

    /// Whether a home is subscribed to and what keeps its entity alive changed; nothing
    /// happens where there is no such home.
    pub fn home_mut(&mut self, entity_id: u64, subscribed: bool, strong: Option<u64>) -> (found:
        bool)
        ensures
            found == old(self)@.homes.contains_key(entity_id),
            final(self)@ == (if found {
                HostSharedModel {
                    homes: old(self)@.homes.insert(
                        entity_id,
                        HostHomeModel { subscribed, strong, ..old(self)@.homes[entity_id] },
                    ),
                    ..old(self)@
                }
            } else {
                old(self)@
            }),
    {
        match self.homes.remove(entity_id) {
            Some(mut home) => {
                home.subscribed = subscribed;
                home.strong = strong;
                self.homes.insert(entity_id, home);
                true
            },
            None => {
                assert(self@ =~= old(self)@);
                false
            },
        }
    }

    /// Wait for a guest entity to be announced under `name`.
    pub fn insert_projection(&mut self, name: String, interface: String, signal: u64)
        ensures
            final(self)@ == old(self)@.projected(name@, interface@, signal, None),
    {
        self.insert_projection_inner(name, interface, signal, None);
    }

    /// Insert a projection already bound to an entity id (connected from a ref).
    pub fn insert_projection_bound(
        &mut self,
        name: String,
        interface: String,
        signal: u64,
        entity_id: u64,
    )
        ensures
            final(self)@ == (HostSharedModel {
                names: old(self)@.names.insert(entity_id, name@),
                ..old(self)@.projected(name@, interface@, signal, Some(entity_id))
            }),
    {
        self.insert_projection_inner(name.clone(), interface, signal, Some(entity_id));
        self.projection_names_by_id.insert(entity_id, name);
    }

    fn insert_projection_inner(
        &mut self,
        name: String,
        interface: String,
        signal: u64,
        entity_id: Option<u64>,
    )
        ensures
            final(self)@ == old(self)@.projected(name@, interface@, signal, entity_id),
    {
        let projection = HostProjection {
            interface,
            entity_id,
            signal,
            pending_sends: Vec::new(),
        };
        assert(projection@.pending_sends =~= Seq::empty());
        self.projections_by_name.insert(name, projection);
    }

    /// Queue a message for an entity whose home is not announced yet. Tells whether there
    /// is a projection of that name.
    pub fn queue_send(&mut self, name: &str, send: PendingSend) -> (queued: bool)
        ensures
            queued == old(self)@.projections.contains_key(name@),
            final(self)@ == (if queued {
                let projection = old(self)@.projections[name@];
                HostSharedModel {
                    projections: old(self)@.projections.insert(
                        name@,
                        HostProjectionModel {
                            pending_sends: projection.pending_sends.push(send@),
                            ..projection
                        },
                    ),
                    ..old(self)@
                }
            } else {
                old(self)@
            }),
    {
        match self.projections_by_name.remove(name) {
            Some(mut projection) => {
                let ghost before = projection@;
                let ghost model = send@;
                projection.pending_sends.push(send);
                assert(projection@.pending_sends =~= before.pending_sends.push(model));
                self.projections_by_name.insert(name.to_owned(), projection);
                true
            },
            None => {
                assert(self@ =~= old(self)@);
                false
            },
        }
    }

    /// Bind a guest announcement to a waiting projection. Gives the messages queued while
    /// it waited, in order, ready to be sent; none where nothing was bound.
    pub fn bind_projection(&mut self, announcement: &SharedEntityAnnouncement) -> (sends: Option<
        Vec<PendingSend>,
    >)
        ensures
            final(self)@ == old(self)@.bound(announcement@),
            match sends {
                Some(sends) => old(self)@.projections.contains_key(announcement.name@)
                    && old(self)@.projections[announcement.name@].interface
                    == announcement.interface@ && send_models(sends@)
                    == old(self)@.projections[announcement.name@].pending_sends,
                None => !(old(self)@.projections.contains_key(announcement.name@)
                    && old(self)@.projections[announcement.name@].interface
                    == announcement.interface@),
            },
    {
        let name = announcement.name.clone();
        let mut projection = match self.projections_by_name.remove(name.as_str()) {
            Some(projection) => projection,
            None => {
                self.unclaimed_announcements.insert(
                    name,
                    SharedEntityAnnouncement {
                        entity_id: announcement.entity_id,
                        interface: announcement.interface.clone(),
                        name: announcement.name.clone(),
                    },
                );
                assert(self@ =~= old(self)@.bound(announcement@));
                return None;
            },
        };
        if !same_text(projection.interface.as_str(), announcement.interface.as_str()) {
            self.projections_by_name.insert(name, projection);
            assert(self@ =~= old(self)@.bound(announcement@));
            return None;
        }
        projection.entity_id = Some(announcement.entity_id);
        let mut sends: Vec<PendingSend> = Vec::new();
        core::mem::swap(&mut sends, &mut projection.pending_sends);
        assert(projection@.pending_sends =~= Seq::empty());
        self.projection_names_by_id.insert(announcement.entity_id, name.clone());
        self.projections_by_name.insert(name, projection);
        assert(self@ =~= old(self)@.bound(announcement@));
        Some(sends)
    }

    /// Who answers a message: the method's handler, or the wildcard's. Control messages
    /// are handled before.
    pub fn dispatch(&self, entity_id: u64, method: &str) -> (dispatched: Result<
        Dispatched,
        String,
    >)
        ensures
            match dispatched {
                Ok(dispatched) => self@.dispatched(entity_id, method@) == Ok::<u64, Seq<char>>(
                    dispatched.handler,
                ) && dispatched.context@ == dispatch_context(
                    debug_text(method@),
                    debug_text(self@.homes[entity_id].name),
                ),
                Err(reason) => self@.dispatched(entity_id, method@) == Err::<u64, Seq<char>>(
                    reason@,
                ),
            },
    {
        let home = match self.homes.get(entity_id) {
            Some(home) => home,
            None => {
                let mut reason = "message for unknown shared entity ".to_owned();
                append_decimal(&mut reason, entity_id);
                return Err(reason);
            },
        };
        let shown_name = quoted(home.name.as_str());
        let shown_method = quoted(method);
        match home.methods.find(method) {
            Some(handler) => Ok(
                Dispatched {
                    handler,
                    context: dispatch_heading(shown_method.as_str(), shown_name.as_str()),
                },
            ),
            None => Err(
                no_method_reason(
                    shown_name.as_str(),
                    home.interface.as_str(),
                    shown_method.as_str(),
                ),
            ),
        }
    }
}

/// An announcement that comes before anyone waits is kept, and binds nothing.
pub proof fn early_announcements_are_kept(end: HostSharedModel, announcement: AnnouncementModel)
    requires
        !end.projections.contains_key(announcement.name),
    ensures
        end.bound(announcement).unclaimed.contains_key(announcement.name),
        end.bound(announcement).unclaimed[announcement.name] == announcement,
        end.bound(announcement).projections == end.projections,
{
}

/// Binding twice sends what waited once: the second announcement finds nothing waiting.
pub proof fn waiting_sends_go_out_once(end: HostSharedModel, announcement: AnnouncementModel)
    requires
        end.projections.contains_key(announcement.name),
        end.projections[announcement.name].interface == announcement.interface,
    ensures
        end.bound(announcement).projections[announcement.name].pending_sends.len() == 0,
        end.bound(announcement).projections[announcement.name].entity_id == Some(
            announcement.entity_id,
        ),
        end.bound(announcement).names[announcement.entity_id] == announcement.name,
{
}

/// Who answers a message to a home is the method's own handler, or the wildcard's; a message
/// that nobody answers says what it was for.
pub proof fn messages_find_their_handler(end: HostSharedModel, entity_id: u64, method: Seq<char>)
    ensures
        !end.homes.contains_key(entity_id) ==> end.dispatched(entity_id, method) == Err::<
            u64,
            Seq<char>,
        >("message for unknown shared entity "@ + decimal_chars(entity_id as nat)),
        end.homes.contains_key(entity_id) ==> {
            let home = end.homes[entity_id];
            &&& home.methods.contains_key(method) ==> end.dispatched(entity_id, method) == Ok::<
                u64,
                Seq<char>,
            >(home.methods[method])
            &&& !home.methods.contains_key(method) && home.methods.contains_key("*"@)
                ==> end.dispatched(entity_id, method) == Ok::<u64, Seq<char>>(home.methods["*"@])
            &&& !home.methods.contains_key(method) && !home.methods.contains_key("*"@)
                ==> end.dispatched(entity_id, method) == Err::<u64, Seq<char>>(
                "shared entity "@ + debug_text(home.name) + " ("@ + home.interface
                    + ") has no method "@ + debug_text(method),
            )
        },
{
}

/// A failed handler is headed by the method and the entity it was for.
pub proof fn headings_name_method_and_entity(method: Seq<char>, name: Seq<char>)
    ensures
        dispatch_context(method, name) == "dispatching "@ + method + " to shared entity "@ + name,
{
}

/// A projection waits for its entity, or is bound to it, as it was asked for; an
/// announcement holds the id, the interface and the name it was made with.
pub proof fn projections_wait_as_asked(
    end: HostSharedModel,
    name: Seq<char>,
    interface: Seq<char>,
    signal: u64,
    entity_id: Option<u64>,
    announcement: SharedEntityAnnouncement,
)
    ensures
        ({
            let after = end.projected(name, interface, signal, entity_id);
            &&& after.projections.contains_key(name)
            &&& after.projections[name].interface == interface
            &&& after.projections[name].signal == signal
            &&& after.projections[name].entity_id == entity_id
            &&& after.projections[name].pending_sends.len() == 0
            &&& after.unclaimed == end.unclaimed
            &&& after.homes == end.homes
        }),
        announcement@.entity_id == announcement.entity_id,
        announcement@.interface == announcement.interface@,
        announcement@.name == announcement.name@,
{
}

/// An announcement of another interface than the one waited for changes nothing; one that
/// binds keeps the signal the events land in.
pub proof fn announcements_of_another_interface_are_ignored(
    end: HostSharedModel,
    announcement: AnnouncementModel,
)
    requires
        end.projections.contains_key(announcement.name),
    ensures
        end.projections[announcement.name].interface != announcement.interface ==> end.bound(
            announcement,
        ) == end,
        end.projections[announcement.name].interface == announcement.interface ==> {
            let after = end.bound(announcement);
            &&& after.projections[announcement.name].signal
                == end.projections[announcement.name].signal
            &&& after.projections[announcement.name].interface == announcement.interface
            &&& after.unclaimed == end.unclaimed
            &&& after.homes == end.homes
        },
{
}

} // verus!
