//! Common object-capability patterns: forwarders that stand between a capability and
//! those it is handed to, and a local cache of remote state.

use vstd::prelude::*;
use vstd::string::*;
use crate::frame::{FrameModel, Payload, PayloadModel};
use crate::model::ObjectsModel;
use crate::registry::{MintError, Objects, Remote};
use crate::text::same_text;

verus! {

/// How `{:?}` shows a text: in quotes, with what cannot be shown plainly escaped.
pub uninterp spec fn debug_text(text: Seq<char>) -> Seq<char>;

/// What `format!` makes of a text by `{:?}`. Its escaping follows the Unicode tables of
/// the standard library, which are not restated; that it depends on the text alone is.
#[verifier::external_body]
pub(crate) fn quoted(text: &str) -> (shown: String)
    ensures
        shown@ == debug_text(text@),
{
    format!("{:?}", text)
}

/// Why an attenuated capability refuses a method, given the method's quoted name.
pub fn refusal(quoted_method: &str) -> (reason: String)
    ensures
        reason@ == "method "@ + quoted_method@ + " is not permitted by this capability"@,
{
    let mut reason = "method ".to_owned();
    reason.append(quoted_method);
    reason.append(" is not permitted by this capability");
    reason
}

/// Listen to the object a forwarder stands before. The signal its notifies and events land
/// on is named by the object's id, if it is made now.
pub(crate) fn observe_target(target: Remote, objects: &mut Objects) -> (observed: Result<
    Remote,
    MintError,
>)
    requires
        old(objects)@.wf(),
        old(objects)@.projections.contains_key(target.spec_id()),
        old(objects)@.projections[target.spec_id()].handles > 0,
    ensures
        match observed {
            Ok(same) => same == target && old(objects)@.observed(
                target.spec_id(),
                target.spec_id(),
                final(objects)@,
            ),
            Err(_) => old(objects)@.signal_at(target.spec_id()) is None && final(objects)@
                == old(objects)@.dropped(target.spec_id()),
        },
        final(objects)@.wf(),
{
    match objects.signal_for(target.id(), target.id()) {
        Ok(_) => Ok(target),
        Err(error) => {
            objects.drop_remote(target);
            Err(error)
        },
    }
}

/// Whether `text` is one of `texts`.
pub open spec fn lists_text(texts: Seq<String>, text: Seq<char>) -> bool {
    exists|i: int| 0 <= i < texts.len() && (#[trigger] texts[i])@ == text
}

/// An allowlist forwarder: wrap a capability you hold, list the methods that may pass,
/// and hand out the wrapper. Everything else is rejected without ever reaching the
/// wrapped object. Notifies, events, and the refs in payloads pass through unfiltered.
pub struct Attenuated {
    target: Remote,
    allowed: Vec<String>,
}

impl Attenuated {
    /// The wrapped object.
    pub closed spec fn spec_target(&self) -> u64 {
        self.target.spec_id()
    }

    /// Whether a method may pass.
    pub closed spec fn permits(&self, method: Seq<char>) -> bool {
        lists_text(self.allowed@, method)
    }

    /// Wrap `target`, permitting only the listed methods through. The wrapped object is
    /// listened to, for [`Attenuated::pass_event`].
    pub fn new(target: Remote, allowed: Vec<String>, objects: &mut Objects) -> (attenuated: Result<
        Attenuated,
        MintError,
    >)
        requires
            old(objects)@.wf(),
            old(objects)@.projections.contains_key(target.spec_id()),
            old(objects)@.projections[target.spec_id()].handles > 0,
        ensures
            match attenuated {
                Ok(attenuated) => {
                    &&& attenuated.spec_target() == target.spec_id()
                    &&& forall|method: Seq<char>| #[trigger]
                        attenuated.permits(method) == lists_text(allowed@, method)
                    &&& old(objects)@.observed(
                        target.spec_id(),
                        target.spec_id(),
                        final(objects)@,
                    )
                },
                Err(_) => old(objects)@.signal_at(target.spec_id()) is None && final(objects)@
                    == old(objects)@.dropped(target.spec_id()),
            },
            final(objects)@.wf(),
    {
        match observe_target(target, objects) {
            Ok(target) => Ok(Attenuated { target, allowed }),
            Err(error) => Err(error),
        }
    }

    fn is_permitted(&self, method: &str) -> (permitted: bool)
        ensures
            permitted == self.permits(method@),
    {
        let mut i: usize = 0;
        while i < self.allowed.len()
            invariant
                i <= self.allowed.len(),
                forall|j: int| 0 <= j < i ==> (#[trigger] self.allowed@[j])@ != method@,
            decreases self.allowed.len() - i,
        {
            if same_text(self.allowed[i].as_str(), method) {
                assert(self.allowed@[i as int]@ == method@);
                return true;
            }
            i += 1;
        }
        false
    }

    /// Forward a call: an allowed method goes to the wrapped object with the payload as it
    /// is, anything else fails without touching it. The receipt gets the response.
    pub fn register(
        &self,
        method: &str,
        payload: &Payload,
        receipt: u64,
        objects: &mut Objects,
    ) -> (forwarded: Result<(), String>)
        requires
            old(objects)@.wf(),
            old(objects)@.next_request_id < u64::MAX,
        ensures
            match forwarded {
                Ok(_) => self.permits(method@) && final(objects)@ == old(objects)@.called(
                    self.spec_target(),
                    method@,
                    payload@,
                    Some(receipt),
                    None,
                ),
                Err(reason) => !self.permits(method@) && final(objects)@ == old(objects)@
                    && reason@ == "method "@ + debug_text(method@)
                    + " is not permitted by this capability"@,
            },
            final(objects)@.wf(),
    {
        if !self.is_permitted(method) {
            let shown = quoted(method);
            return Err(refusal(shown.as_str()));
        }
        objects.send(self.target.id(), method, payload.duplicate(), Some(receipt), None);
        Ok(())
    }

    /// Pass a notify or an event of the wrapped object on to those who observe the wrapper,
    /// which is shared as `wrapper`.
    pub fn pass_event(&self, wrapper: u64, name: &str, payload: &Payload, objects: &mut Objects)
        requires
            old(objects)@.wf(),
        ensures
            final(objects)@ == old(objects)@.notified(wrapper, name@, payload@),
            final(objects)@.wf(),
    {
        objects.notify_observers(wrapper, name, payload);
    }
}

/// One forwarded call, as remembered by an [`Audited`] wrapper.
#[derive(Debug, PartialEq)]
pub struct AuditRecord {
    pub method: String,
    pub payload_len: usize,
    /// The object ids the call's payload carried: every capability that passed through.
    pub refs: Vec<u64>,
    /// `None` while the forwarded call is still in flight.
    pub completed: Option<bool>,
}

/// What an [`AuditRecord`] holds.
#[verifier::ext_equal]
pub struct AuditModel {
    pub method: Seq<char>,
    pub payload_len: nat,
    pub refs: Seq<u64>,
    pub completed: Option<bool>,
}

impl View for AuditRecord {
    type V = AuditModel;

    open spec fn view(&self) -> AuditModel {
        AuditModel {
            method: self.method@,
            payload_len: self.payload_len as nat,
            refs: self.refs@,
            completed: self.completed,
        }
    }
}

/// What a ledger holds.
pub open spec fn ledger_model(records: Seq<AuditRecord>) -> Seq<AuditModel> {
    records.map_values(|record: AuditRecord| record@)
}

/// The record of a call that was just forwarded.
pub open spec fn call_record(method: Seq<char>, payload: PayloadModel) -> AuditModel {
    AuditModel { method, payload_len: payload.bytes.len(), refs: payload.refs, completed: None }
}

/// A ledger after the call at `index` was answered.
pub open spec fn with_completion(ledger: Seq<AuditModel>, index: int, success: bool) -> Seq<
    AuditModel,
> {
    if 0 <= index < ledger.len() {
        ledger.update(index, AuditModel { completed: Some(success), ..ledger[index] })
    } else {
        ledger
    }
}

/// An accounting forwarder: forwards every method, and remembers each call.
pub struct Audited {
    target: Remote,
    records: Vec<AuditRecord>,
}

impl Audited {
    /// The wrapped object.
    pub closed spec fn spec_target(&self) -> u64 {
        self.target.spec_id()
    }

    /// The calls forwarded so far, oldest first.
    pub closed spec fn ledger(&self) -> Seq<AuditModel> {
        ledger_model(self.records@)
    }

    /// Wrap `target`; every call forwarded through the wrapper is recorded. The wrapped
    /// object is listened to, for [`Audited::pass_event`].
    pub fn new(target: Remote, objects: &mut Objects) -> (audited: Result<Audited, MintError>)
        requires
            old(objects)@.wf(),
            old(objects)@.projections.contains_key(target.spec_id()),
            old(objects)@.projections[target.spec_id()].handles > 0,
        ensures
            match audited {
                Ok(audited) => {
                    &&& audited.spec_target() == target.spec_id()
                    &&& audited.ledger() == Seq::<AuditModel>::empty()
                    &&& old(objects)@.observed(
                        target.spec_id(),
                        target.spec_id(),
                        final(objects)@,
                    )
                },
                Err(_) => old(objects)@.signal_at(target.spec_id()) is None && final(objects)@
                    == old(objects)@.dropped(target.spec_id()),
            },
            final(objects)@.wf(),
    {
        match observe_target(target, objects) {
            Ok(target) => {
                let audited = Audited { target, records: Vec::new() };
                assert(audited.ledger() =~= Seq::<AuditModel>::empty());
                Ok(audited)
            },
            Err(error) => Err(error),
        }
    }

    /// The calls forwarded so far, oldest first.
    pub fn records(&self) -> (records: &Vec<AuditRecord>)
        ensures
            ledger_model(records@) == self.ledger(),
    {
        &self.records
    }

    /// Forward a call, remembering it. Returns its place in the ledger, for
    /// [`Audited::completed`].
    pub fn register(
        &mut self,
        method: &str,
        payload: &Payload,
        receipt: u64,
        objects: &mut Objects,
    ) -> (index: usize)
        requires
            old(objects)@.wf(),
            old(objects)@.next_request_id < u64::MAX,
        ensures
            index == old(self).ledger().len(),
            final(self).ledger() == old(self).ledger().push(call_record(method@, payload@)),
            final(self).spec_target() == old(self).spec_target(),
            final(objects)@ == old(objects)@.called(
                old(self).spec_target(),
                method@,
                payload@,
                Some(receipt),
                None,
            ),
            final(objects)@.wf(),
    {
        let index: usize = self.records.len();
        let refs = payload.refs.clone();
        assert(refs@ =~= payload.refs@);
        self.records.push(
            AuditRecord {
                method: method.to_owned(),
                payload_len: payload.bytes.len(),
                refs,
                completed: None,
            },
        );
        assert(self.ledger() =~= old(self).ledger().push(call_record(method@, payload@)));
        objects.send(self.target.id(), method, payload.duplicate(), Some(receipt), None);
        index
    }

    /// A forwarded call was answered.
    pub fn completed(&mut self, index: usize, success: bool)
        ensures
            final(self).ledger() == with_completion(old(self).ledger(), index as int, success),
            final(self).spec_target() == old(self).spec_target(),
    {
        if index < self.records.len() {
            let mut record = self.records.remove(index);
            record.completed = Some(success);
            self.records.insert(index, record);
        }
        assert(self.ledger() =~= with_completion(old(self).ledger(), index as int, success));
    }

    /// Pass a notify or an event of the wrapped object on to those who observe the wrapper,
    /// which is shared as `wrapper`.
    pub fn pass_event(&self, wrapper: u64, name: &str, payload: &Payload, objects: &mut Objects)
        requires
            old(objects)@.wf(),
        ensures
            final(objects)@ == old(objects)@.notified(wrapper, name@, payload@),
            final(objects)@.wf(),
    {
        objects.notify_observers(wrapper, name, payload);
    }
}

/// One thing that is recorded.
pub enum AuditStep {
    /// A call was forwarded.
    Called { method: Seq<char>, payload: PayloadModel },
    /// The call at this index was answered.
    Completed { index: nat, success: bool },
}

/// A ledger after some things were recorded, in order.
pub open spec fn recorded(ledger: Seq<AuditModel>, steps: Seq<AuditStep>) -> Seq<AuditModel>
    decreases steps.len(),
{
    if steps.len() == 0 {
        ledger
    } else {
        let before = recorded(ledger, steps.drop_last());
        match steps.last() {
            AuditStep::Called { method, payload } => before.push(call_record(method, payload)),
            AuditStep::Completed { index, success } => with_completion(
                before,
                index as int,
                success,
            ),
        }
    }
}

/// How the call at an index was last answered in the course of some steps, if it was.
pub open spec fn last_completion(steps: Seq<AuditStep>, index: nat) -> Option<bool>
    decreases steps.len(),
{
    if steps.len() == 0 {
        None
    } else {
        match steps.last() {
            AuditStep::Completed { index: other, success } if other == index => Some(success),
            _ => last_completion(steps.drop_last(), index),
        }
    }
}

/// The ledger only grows: whatever is recorded after it, every record keeps its place and what
/// it says of the call, and how the call was answered is what its last answer says.
pub proof fn ledgers_keep_every_record(ledger: Seq<AuditModel>, steps: Seq<AuditStep>, i: nat)
    requires
        i < ledger.len(),
    ensures
        ledger.len() <= recorded(ledger, steps).len(),
        recorded(ledger, steps)[i as int] == (AuditModel {
            completed: match last_completion(steps, i) {
                Some(success) => Some(success),
                None => ledger[i as int].completed,
            },
            ..ledger[i as int]
        }),
    decreases steps.len(),
{
    if steps.len() > 0 {
        ledgers_keep_every_record(ledger, steps.drop_last(), i);
    }
}

/// A local, observable cache of remote state: the response to one request, which is sent
/// again whenever the home notifies, with bursts coalesced into one call in flight and one
/// to follow.
pub struct Mirror<T> {
    remote: Remote,
    method: String,
    request: Payload,
    latest: Option<T>,
    fetching: bool,
    dirty: bool,
}

/// What a mirror does when a fetch came back.
#[derive(Clone, Copy, Debug, PartialEq, Eq, Structural)]
pub struct Fetched {
    /// Notify the mirror's observers.
    pub notify: bool,
    /// A further fetch is on its way.
    pub again: bool,
}

/// What a mirror holds.
#[verifier::ext_equal]
pub struct MirrorModel<T> {
    /// The object whose state is mirrored.
    pub target: u64,
    /// The call that reads it.
    pub method: Seq<char>,
    pub request: PayloadModel,
    /// The most recently fetched value.
    pub latest: Option<T>,
    /// Whether a fetch is in flight.
    pub fetching: bool,
    /// Whether the home notified since the fetch in flight was sent.
    pub dirty: bool,
}

impl<T> MirrorModel<T> {
    /// Whether a fetch follows only one that is in flight.
    pub open spec fn wf(self) -> bool {
        self.dirty ==> self.fetching
    }

    /// The state after the home notified.
    pub open spec fn notified(self) -> MirrorModel<T> {
        MirrorModel { fetching: true, dirty: self.fetching, ..self }
    }

    /// The state after the home notified `times` times.
    pub open spec fn notified_times(self, times: nat) -> MirrorModel<T>
        decreases times,
    {
        if times == 0 {
            self
        } else {
            self.notified_times((times - 1) as nat).notified()
        }
    }

    /// The state after the fetch in flight came back.
    pub open spec fn fetched(self, outcome: Result<T, String>) -> MirrorModel<T> {
        MirrorModel {
            latest: match outcome {
                Ok(value) => Some(value),
                Err(_) => self.latest,
            },
            fetching: self.dirty,
            dirty: false,
            ..self
        }
    }

    /// The registry after the request was sent.
    pub open spec fn asked(self, objects: ObjectsModel, receipt: u64) -> ObjectsModel {
        objects.called(self.target, self.method, self.request, Some(receipt), None)
    }
}

impl<T> View for Mirror<T> {
    type V = MirrorModel<T>;

    closed spec fn view(&self) -> MirrorModel<T> {
        MirrorModel {
            target: self.remote.spec_id(),
            method: self.method@,
            request: self.request@,
            latest: self.latest,
            fetching: self.fetching,
            dirty: self.dirty,
        }
    }
}

impl<T> Mirror<T> {
    /// Mirror the response to a request, which is sent again on every notify from the
    /// home. The home's first notify may predate the mirror, so it fetches once
    /// unconditionally; the receipt gets the response, for [`Mirror::fetched`].
    pub fn new(
        remote: Remote,
        method: &str,
        request: Payload,
        receipt: u64,
        objects: &mut Objects,
    ) -> (mirror: Result<Mirror<T>, MintError>)
        requires
            old(objects)@.wf(),
            old(objects)@.projections.contains_key(remote.spec_id()),
            old(objects)@.projections[remote.spec_id()].handles > 0,
            old(objects)@.next_request_id < u64::MAX,
        ensures
            match mirror {
                Ok(mirror) => {
                    &&& mirror@ == (MirrorModel::<T> {
                        target: remote.spec_id(),
                        method: method@,
                        request: request@,
                        latest: None,
                        fetching: true,
                        dirty: false,
                    })
                    &&& mirror@.wf()
                    &&& exists|observed: ObjectsModel| #[trigger]
                        old(objects)@.observed(remote.spec_id(), remote.spec_id(), observed)
                            && final(objects)@ == mirror@.asked(observed, receipt)
                },
                Err(_) => old(objects)@.signal_at(remote.spec_id()) is None && final(objects)@
                    == old(objects)@.dropped(remote.spec_id()),
            },
            final(objects)@.wf(),
    {
        let remote = match observe_target(remote, objects) {
            Ok(remote) => remote,
            Err(error) => {
                return Err(error);
            },
        };
        let mut mirror = Mirror {
            remote,
            method: method.to_owned(),
            request,
            latest: None,
            fetching: false,
            dirty: false,
        };
        mirror.refresh(receipt, objects);
        Ok(mirror)
    }

    /// The most recently fetched value, if any has arrived yet.
    pub fn latest(&self) -> (latest: Option<&T>)
        ensures
            match latest {
                Some(value) => self@.latest == Some(*value),
                None => self@.latest is None,
            },
    {
        self.latest.as_ref()
    }

    /// The home notified. The request is sent anew, unless a fetch is in flight already:
    /// then any number of notifies coalesce into one fetch that follows it. Tells whether
    /// the receipt is used.
    pub fn refresh(&mut self, receipt: u64, objects: &mut Objects) -> (started: bool)
        requires
            old(self)@.wf(),
            old(objects)@.wf(),
            !old(self)@.fetching ==> old(objects)@.next_request_id < u64::MAX,
        ensures
            started == !old(self)@.fetching,
            final(self)@ == old(self)@.notified(),
            final(self)@.wf(),
            final(objects)@ == (if started {
                old(self)@.asked(old(objects)@, receipt)
            } else {
                old(objects)@
            }),
            final(objects)@.wf(),
    {
        if self.fetching {
            self.dirty = true;
            return false;
        }
        self.fetching = true;
        let request = self.request.duplicate();
        objects.send(self.remote.id(), self.method.as_str(), request, Some(receipt), None);
        true
    }

    /// A fetch came back. A value is kept and shown; a failure leaves the last value. If
    /// the home notified meanwhile, the request is sent once more, with the receipt.
    pub fn fetched(
        &mut self,
        outcome: Result<T, String>,
        receipt: u64,
        objects: &mut Objects,
    ) -> (fetched: Fetched)
        requires
            old(self)@.wf(),
            old(self)@.fetching,
            old(objects)@.wf(),
            old(self)@.dirty ==> old(objects)@.next_request_id < u64::MAX,
        ensures
            fetched == (Fetched { notify: outcome is Ok, again: old(self)@.dirty }),
            final(self)@ == old(self)@.fetched(outcome),
            final(self)@.wf(),
            final(objects)@ == (if fetched.again {
                old(self)@.asked(old(objects)@, receipt)
            } else {
                old(objects)@
            }),
            final(objects)@.wf(),
    {
        self.fetching = false;
        let notify = match outcome {
            Ok(value) => {
                self.latest = Some(value);
                true
            },
            Err(_) => false,
        };
        let again = self.dirty;
        self.dirty = false;
        if again {
            self.refresh(receipt, objects);
        }
        Fetched { notify, again }
    }
}

/// However often the home notifies while a fetch is in flight, one fetch follows it, and
/// none if the home did not notify.
pub proof fn bursts_coalesce<T>(mirror: MirrorModel<T>, times: nat, outcome: Result<T, String>)
    requires
        mirror.wf(),
        mirror.fetching,
        !mirror.dirty,
    ensures
        mirror.notified_times(times).fetching,
        mirror.notified_times(times).fetched(outcome).fetching <==> times > 0,
        times > 0 ==> mirror.notified_times(times).fetched(outcome).fetched(outcome).fetching
            == false,
    decreases times,
{
    if times > 0 {
        bursts_coalesce(mirror, (times - 1) as nat, outcome);
    }
}

/// A method passes an attenuated capability just where it is one of those listed, letter for
/// letter.
pub proof fn listed_methods_alone_pass(texts: Seq<String>, method: Seq<char>)
    ensures
        lists_text(texts, method) <==> exists|i: int|
            0 <= i < texts.len() && (#[trigger] texts[i])@ == method,
        texts.len() == 0 ==> !lists_text(texts, method),
        forall|i: int| 0 <= i < texts.len() ==> #[trigger] lists_text(texts, texts[i]@),
{
    assert forall|i: int| 0 <= i < texts.len() implies #[trigger] lists_text(texts, texts[i]@) by {
        assert(texts[i]@ == texts[i]@);
    }
}

/// A record says what was called, how much was carried and every ref that was carried; it is
/// open until the call is answered.
pub proof fn records_say_what_passed(method: Seq<char>, payload: PayloadModel, record: AuditRecord)
    ensures
        call_record(method, payload).method == method,
        call_record(method, payload).payload_len == payload.bytes.len(),
        call_record(method, payload).refs == payload.refs,
        call_record(method, payload).completed is None,
        record@.method == record.method@,
        record@.payload_len == record.payload_len,
        record@.refs == record.refs@,
        record@.completed == record.completed,
{
}

/// An answer is noted in the record of its call, as the success or failure it was, and in no
/// other; an answer to no call is noted nowhere.
pub proof fn answers_are_noted_at_their_call(
    ledger: Seq<AuditModel>,
    index: int,
    success: bool,
    other: int,
)
    requires
        0 <= other < ledger.len(),
    ensures
        with_completion(ledger, index, success).len() == ledger.len(),
        other != index ==> with_completion(ledger, index, success)[other] == ledger[other],
        other == index ==> {
            let noted = with_completion(ledger, index, success)[other];
            &&& noted.completed == Some(success)
            &&& noted.method == ledger[other].method
            &&& noted.payload_len == ledger[other].payload_len
            &&& noted.refs == ledger[other].refs
        },
        index < 0 || ledger.len() <= index ==> with_completion(ledger, index, success) == ledger,
{
}

/// A ledger is told record by record, in the order the calls were made.
pub proof fn ledgers_list_their_records(records: Seq<AuditRecord>, nth: int)
    requires
        0 <= nth < records.len(),
    ensures
        ledger_model(records).len() == records.len(),
        ledger_model(records)[nth].method == records[nth].method@,
        ledger_model(records)[nth].refs == records[nth].refs@,
        ledger_model(records)[nth].completed == records[nth].completed,
{
}

/// A mirror shows the last value that was fetched: a fetch that succeeds replaces it, one
/// that fails leaves it, and a notify alone changes nothing that is shown. What is asked, and
/// of whom, stays.
pub proof fn mirrors_show_the_last_value<T>(
    mirror: MirrorModel<T>,
    value: T,
    error: String,
    objects: ObjectsModel,
    receipt: u64,
)
    ensures
        mirror.fetched(Ok(value)).latest == Some(value),
        mirror.fetched(Err(error)).latest == mirror.latest,
        mirror.notified().latest == mirror.latest,
        mirror.notified().fetching,
        mirror.notified().dirty == mirror.fetching,
        mirror.fetched(Ok(value)).fetching == mirror.dirty,
        mirror.fetched(Err(error)).fetching == mirror.dirty,
        !mirror.fetched(Ok(value)).dirty,
        !mirror.fetched(Err(error)).dirty,
        mirror.notified().target == mirror.target,
        mirror.fetched(Ok(value)).target == mirror.target,
        mirror.fetched(Ok(value)).method == mirror.method,
        mirror.fetched(Ok(value)).request == mirror.request,
        objects.projections.contains_key(mirror.target) ==> {
            &&& mirror.asked(objects, receipt).outbound.last() matches FrameModel::Call(call)
            &&& call.target == mirror.target
            &&& call.method == mirror.method
            &&& call.payload == mirror.request
            &&& call.promised is None
            &&& call.request is Some
            &&& mirror.asked(objects, receipt).pending_responses[call.request->0] == receipt
        },
{
}

} // verus!
