//! The script runtime of a plugin written in JavaScript: its root object answers `load`
//! itself and hands every other method to the script; remotes reach the script as proxies
//! whose methods return promises; UI is a data tree the script renders.
//!
//! A script never holds a UI context. While it runs, everything it asks of the outside
//! world is queued as an operation; once the run returns, the queue is drained.
//!
//! Script functions, views and receipts are known by the numbers the runtime gave them.

use vstd::prelude::*;
use vstd::string::*;
use vstd::utf8::*;
use crate::frame::{outcome_model, Outcome, OutcomeModel, Payload, PayloadModel};
use crate::model::ObjectsModel;
use crate::numerals::{characters, number_in, parse_number};
use crate::registry::{MintError, Objects, Remote};
use crate::table::Table;
use crate::text::{append_decimal, decimal_chars, digit_char};

verus! {

/// The script a JavaScript plugin ships.
pub fn entry_point() -> (path: &'static str)
    ensures
        path@ == "/plugin/index.js"@,
{
    "/plugin/index.js"
}

/// Whether the entry point is to be run again: its modification time is known, and not the
/// one it was last run at.
pub fn should_reload(modified: Option<u128>, last_modified: Option<u128>) -> (reload: bool)
    ensures
        reload == (modified is Some && modified != last_modified),
{
    match (modified, last_modified) {
        (Some(modified), Some(last)) => modified != last,
        (Some(_), None) => true,
        (None, _) => false,
    }
}

// ---------------------------------------------------------------------------------
// Text.
// ---------------------------------------------------------------------------------

/// What bytes say as UTF-8, with what is malformed replaced.
pub uninterp spec fn lossy_text(bytes: Seq<u8>) -> Seq<char>;

/// What `String::from_utf8_lossy` makes of bytes: what they say, where they are valid
/// UTF-8; of others only that the text depends on the bytes alone.
#[verifier::external_body]
fn text_of_bytes(bytes: &Vec<u8>) -> (text: String)
    ensures
        text@ == lossy_text(bytes@),
        valid_utf8(bytes@) ==> text@ == decode_utf8(bytes@),
{
    String::from_utf8_lossy(bytes).into_owned()
}

/// The string a JSON text is, if it is one.
pub uninterp spec fn json_string(json: Seq<char>) -> Option<Seq<char>>;

/// What `serde_json::from_str` reads as a string, if it does. The grammar of JSON is not
/// restated; that the result depends on the text alone is.
#[verifier::external_body]
fn parse_json_string(json: &str) -> (text: Option<String>)
    ensures
        match text {
            Some(text) => json_string(json@) == Some(text@),
            None => json_string(json@) is None,
        },
{
    serde_json::from_str::<String>(json).ok()
}

/// The id a text says; a malformed one stands for the root's.
pub open spec fn spec_parse_id(text: Seq<char>) -> u64 {
    match number_in(text, 10) {
        Some(id) => if id <= u64::MAX {
            id as u64
        } else {
            0
        },
        None => 0,
    }
}

/// The id a text says; 0 where it is malformed.
pub fn parse_id(text: &str) -> (id: u64)
    ensures
        id == spec_parse_id(text@),
{
    let all = characters(text);
    assert(all@.skip(0) =~= all@);
    match parse_number(&all, 0, 10, u64::MAX) {
        Some(id) => id,
        None => 0,
    }
}

/// The ids some texts say.
pub fn parse_ids(texts: &Vec<String>) -> (ids: Vec<u64>)
    ensures
        ids@ == texts@.map_values(|text: String| spec_parse_id(text@)),
{
    let mut ids: Vec<u64> = Vec::new();
    let mut i: usize = 0;
    while i < texts.len()
        invariant
            i <= texts.len(),
            ids@.len() == i,
            forall|j: int| 0 <= j < i ==> ids@[j] == spec_parse_id((#[trigger] texts@[j])@),
        decreases texts.len() - i,
    {
        ids.push(parse_id(texts[i].as_str()));
        i += 1;
    }
    assert(ids@ =~= texts@.map_values(|text: String| spec_parse_id(text@)));
    ids
}

/// Ids in decimal notation: a script's numbers could not hold them.
pub fn ref_strings(refs: &Vec<u64>) -> (texts: Vec<String>)
    ensures
        texts@.len() == refs@.len(),
        forall|i: int|
            0 <= i < refs@.len() ==> (#[trigger] texts@[i])@ == decimal_chars(refs@[i] as nat),
{
    let mut texts: Vec<String> = Vec::new();
    let mut i: usize = 0;
    while i < refs.len()
        invariant
            i <= refs.len(),
            texts@.len() == i,
            forall|j: int|
                0 <= j < i ==> (#[trigger] texts@[j])@ == decimal_chars(refs@[j] as nat),
        decreases refs.len() - i,
    {
        let mut text = String::new();
        append_decimal(&mut text, refs[i]);
        assert(text@ =~= decimal_chars(refs@[i as int] as nat));
        texts.push(text);
        i += 1;
    }
    texts
}

/// A text without the hashes it begins with.
pub open spec fn without_hashes(text: Seq<char>) -> Seq<char>
    decreases text.len(),
{
    if text.len() > 0 && text[0] == '#' {
        without_hashes(text.drop_first())
    } else {
        text
    }
}

/// The color a text says: a hexadecimal number of 32 bits, behind any hashes.
pub open spec fn spec_parse_color(text: Seq<char>) -> Option<u32> {
    match number_in(without_hashes(text), 16) {
        Some(color) => if color <= u32::MAX {
            Some(color as u32)
        } else {
            None
        },
        None => None,
    }
}

/// `#rrggbb` (with or without the hash).
pub fn parse_color(text: &str) -> (color: Option<u32>)
    ensures
        color == spec_parse_color(text@),
{
    let all = characters(text);
    let mut start: usize = 0;
    assert(all@.skip(0) =~= all@);
    while start < all.len() && all[start] == '#'
        invariant
            start <= all.len(),
            all@ == text@,
            without_hashes(text@) == without_hashes(all@.skip(start as int)),
        decreases all.len() - start,
    {
        assert(all@.skip(start as int).drop_first() =~= all@.skip(start as int + 1));
        start += 1;
    }
    assert(without_hashes(all@.skip(start as int)) == all@.skip(start as int));
    match parse_number(&all, start, 16, u32::MAX as u64) {
        Some(color) => Some(color as u32),
        None => None,
    }
}

/// The text of a failed response: the string the script encoded, or what it sent as it is.
pub fn error_text(decoded: Option<String>, json: String) -> (error: String)
    ensures
        error == (match decoded {
            Some(text) => text,
            None => json,
        }),
{
    match decoded {
        Some(text) => text,
        None => json,
    }
}

proof fn lemma_decimal_reads_back(n: nat)
    ensures
        decimal_chars(n).len() > 0,
        crate::numerals::are_digits(decimal_chars(n), 10),
        crate::numerals::digits_value(decimal_chars(n), 10) == n,
        decimal_chars(n)[0] != '+',
    decreases n,
{
    if n < 10 {
        let one = decimal_chars(n);
        assert(one.drop_last() =~= Seq::<char>::empty());
        assert(crate::numerals::digits_value(one.drop_last(), 10) == 0);
        assert(crate::numerals::digit_value(digit_char(n)) == Some(n));
    } else {
        lemma_decimal_reads_back(n / 10);
        let all = decimal_chars(n);
        let rest = decimal_chars(n / 10);
        assert(all.drop_last() =~= rest);
        assert(crate::numerals::digit_value(digit_char(n % 10)) == Some(n % 10));
        assert forall|i: int| 0 <= i < all.len() implies (crate::numerals::digit_value(
            #[trigger] all[i],
        ) matches Some(value) && value < 10) by {
            if i < rest.len() {
                assert(all[i] == rest[i]);
            }
        }
        assert(all[0] == rest[0]);
    }
}

/// Ids survive the script: what is handed to it as text is read back as the same id.
pub proof fn ids_survive_the_script(id: u64)
    ensures
        spec_parse_id(decimal_chars(id as nat)) == id,
{
    lemma_decimal_reads_back(id as nat);
}

// ---------------------------------------------------------------------------------
// The runtime state and the operation queue.
// ---------------------------------------------------------------------------------

/// One thing a script asked for while running.
#[derive(Debug, PartialEq)]
pub enum Op {
    Call { target: u64, method: String, payload: Payload, resolve: u64, reject: u64 },
    Observe { target: u64, callback: u64 },
    OpenView { surface: u64, key: u32 },
    Render { key: u32, tree: String },
    Respond { request: u64, outcome: Outcome },
}

/// What an [`Op`] holds.
#[verifier::ext_equal]
pub enum OpModel {
    Call { target: u64, method: Seq<char>, payload: PayloadModel, resolve: u64, reject: u64 },
    Observe { observed: u64, callback: u64 },
    OpenView { surface: u64, opened: u32 },
    Render { key: u32, tree: Seq<char> },
    Respond { request: u64, outcome: OutcomeModel },
}

impl View for Op {
    type V = OpModel;

    open spec fn view(&self) -> OpModel {
        match *self {
            Op::Call { target, method, payload, resolve, reject } => OpModel::Call {
                target,
                method: method@,
                payload: payload@,
                resolve,
                reject,
            },
            Op::Observe { target, callback } => OpModel::Observe { observed: target, callback },
            Op::OpenView { surface, key } => OpModel::OpenView { surface, opened: key },
            Op::Render { key, tree } => OpModel::Render { key, tree: tree@ },
            Op::Respond { request, outcome } => OpModel::Respond {
                request,
                outcome: outcome_model(outcome),
            },
        }
    }
}

/// What some operations hold, in order.
pub open spec fn op_models(ops: Seq<Op>) -> Seq<OpModel> {
    ops.map_values(|op: Op| op@)
}

/// Who waits for a script's answer.
#[derive(Clone, Copy, Debug, PartialEq, Eq, Structural)]
pub enum Waiter {
    /// The host's call behind this receipt.
    Host(u64),
    /// Nobody: the call was replayed after a reload.
    Nobody,
}

impl View for Waiter {
    type V = Waiter;

    open spec fn view(&self) -> Waiter {
        *self
    }
}

impl View for Remote {
    type V = u64;

    open spec fn view(&self) -> u64 {
        self.spec_id()
    }
}

/// A call the host made to the root.
#[derive(Debug, PartialEq)]
pub struct HostCall {
    pub method: String,
    pub payload: Payload,
}

/// What a [`HostCall`] holds.
#[verifier::ext_equal]
pub struct HostCallModel {
    pub method: Seq<char>,
    pub payload: PayloadModel,
}

impl View for HostCall {
    type V = HostCallModel;

    open spec fn view(&self) -> HostCallModel {
        HostCallModel { method: self.method@, payload: self.payload@ }
    }
}

/// What some host calls hold, in order.
pub open spec fn history_models(calls: Seq<HostCall>) -> Seq<HostCallModel> {
    calls.map_values(|call: HostCall| call@)
}

/// A call into the script: `plugin.root[method]`, with its arguments as text.
#[derive(Debug, PartialEq)]
pub struct ScriptCall {
    pub request: u64,
    pub method: String,
    pub json: String,
    pub refs: Vec<String>,
}

/// Whether `call` is how a host call is put to the script under `request`.
pub open spec fn is_script_call(call: ScriptCall, request: u64, host: HostCallModel) -> bool {
    &&& call.request == request
    &&& call.method@ == host.method
    &&& call.json@ == lossy_text(host.payload.bytes)
    &&& call.refs@.len() == host.payload.refs.len()
    &&& forall|i: int|
        0 <= i < host.payload.refs.len() ==> (#[trigger] call.refs@[i])@ == decimal_chars(
            host.payload.refs[i] as nat,
        )
}

/// The state of the runtime.
#[verifier::ext_equal]
pub struct JsModel {
    /// What the script asked for and was not done yet, in order.
    pub ops: Seq<OpModel>,
    /// The remotes the script holds, kept connected for as long as it is loaded.
    pub remotes: Map<u64, u64>,
    /// The script's observers.
    pub subscriptions: Seq<u64>,
    /// The script's open views.
    pub views: Map<u64, u64>,
    pub pending: Map<u64, Waiter>,
    pub next_request: u64,
    pub next_view: u32,
    /// Every call the host made to the root, in order: what a reloaded script is replayed.
    pub history: Seq<HostCallModel>,
}

impl JsModel {
    /// The state without a script.
    pub open spec fn fresh(history: Seq<HostCallModel>) -> JsModel {
        JsModel {
            ops: Seq::empty(),
            remotes: Map::empty(),
            subscriptions: Seq::empty(),
            views: Map::empty(),
            pending: Map::empty(),
            next_request: 0,
            next_view: 0,
            history,
        }
    }

    /// The state with one more operation queued.
    pub open spec fn queued(self, op: OpModel) -> JsModel {
        JsModel { ops: self.ops.push(op), ..self }
    }

    /// The state after a call was put to the script.
    pub open spec fn asked(self, waiter: Waiter) -> JsModel {
        let request = (self.next_request + 1) as u64;
        JsModel {
            next_request: request,
            pending: self.pending.insert(request, waiter),
            ..self
        }
    }

    /// The state after a call could not be put to the script: an answer to it is for nobody.
    pub open spec fn given_up(self, request: u64) -> JsModel {
        if self.pending.contains_key(request) {
            JsModel { pending: self.pending.insert(request, Waiter::Nobody), ..self }
        } else {
            self
        }
    }

    /// The state after some calls were replayed, in order.
    pub open spec fn replayed(self, count: nat) -> JsModel
        decreases count,
    {
        if count == 0 {
            self
        } else {
            self.replayed((count - 1) as nat).asked(Waiter::Nobody)
        }
    }

    /// Whether every remote is filed under the object it is a handle on.
    pub open spec fn remotes_wf(self) -> bool {
        forall|target: u64| #[trigger]
            self.remotes.contains_key(target) ==> self.remotes[target] == target
    }

    /// Whether the script has a remote of `target`, or can take one.
    pub open spec fn can_take(self, target: u64, objects: ObjectsModel) -> bool {
        self.remotes.contains_key(target) || (objects.projections.contains_key(target)
            ==> objects.projections[target].handles < u64::MAX)
    }

    /// Whether an operation can be applied: what it counts up can be counted.
    pub open spec fn applies(self, op: OpModel, objects: ObjectsModel) -> bool {
        match op {
            OpModel::Call { target, .. } => objects.next_request_id < u64::MAX && self.can_take(
                target,
                objects,
            ),
            OpModel::Observe { observed, .. } => self.can_take(observed, objects),
            _ => true,
        }
    }

    /// Whether the registry holds a projection for every remote of the script.
    pub open spec fn known_to(self, objects: ObjectsModel) -> bool {
        forall|target: u64| #[trigger]
            self.remotes.contains_key(target) ==> objects.projections.contains_key(target)
                && objects.projections[target].handles > 0
    }
}

/// What is left to be done about an operation.
#[derive(Debug, PartialEq)]
pub enum JsStep {
    Nothing,
    /// The call was sent; settle the script's promise when the receipt resolves.
    AwaitCall { resolve: u64, reject: u64 },
    /// The object is listened to; call back whenever the signal notifies.
    Observe { signal: u64, callback: u64 },
    /// There is no id to listen to the object with.
    Unobserved(MintError),
    /// Open a view on the surface.
    OpenView { surface: u64, key: u32 },
    /// Show the tree in the view.
    Render { view: u64, tree: String },
    /// Hand the outcome to the host's call.
    Settle { receipt: u64, outcome: Outcome },
}

/// What came of loading a script.
#[derive(Debug, PartialEq)]
pub struct Loaded {
    /// Why it failed, if it did.
    pub error: Option<String>,
    /// The calls to put to it, in order.
    pub calls: Vec<ScriptCall>,
}

/// What a script's promise is settled with.
#[derive(Debug, PartialEq)]
pub enum Settlement {
    Resolve { json: String, refs: Vec<String> },
    Reject(String),
}

/// What a reload leaves to be done, in this order: close the views, fail the calls the old
/// script never answered, cancel the observers, give the remotes back.
#[derive(Debug)]
pub struct Teardown {
    pub views: Vec<u64>,
    pub failed: Vec<u64>,
    pub subscriptions: Vec<u64>,
    pub remotes: Vec<Remote>,
}

/// Whether `ids` lists just these keys, once each.
pub open spec fn lists_keys(ids: Seq<u64>, keys: Set<u64>) -> bool {
    &&& ids.no_duplicates()
    &&& forall|id: u64| #[trigger] ids.contains(id) <==> keys.contains(id)
}

/// Whether `values` are just the values of a map, once for each key, in some order.
pub open spec fn lists_values(values: Seq<u64>, map: Map<u64, u64>) -> bool {
    exists|ids: Seq<u64>| #[trigger]
        lists_keys(ids, map.dom()) && values == ids.map_values(|id: u64| map[id])
}

/// The requests the host itself waits for.
pub open spec fn host_requests(pending: Map<u64, Waiter>) -> Set<u64> {
    Set::new(|request: u64| pending.contains_key(request) && pending[request] is Host)
}

/// Whether `receipts` are just those the host waits for, in some order.
pub open spec fn lists_waiting(receipts: Seq<u64>, pending: Map<u64, Waiter>) -> bool {
    exists|ids: Seq<u64>| #[trigger]
        lists_keys(ids, host_requests(pending)) && receipts == ids.map_values(
            |id: u64| pending[id]->Host_0,
        )
}

/// Whether `remotes` are just the handles of a map, in some order.
pub open spec fn lists_remotes(remotes: Seq<Remote>, map: Map<u64, u64>) -> bool {
    lists_values(remotes.map_values(|remote: Remote| remote.spec_id()), map)
}

/// What a call the old script never answered fails with.
pub fn reload_reason() -> (reason: &'static str)
    ensures
        reason@ == "the script was reloaded"@,
{
    "the script was reloaded"
}

/// The runtime behind a script plugin's root.
pub struct JsRoot {
    ops: Vec<Op>,
    remotes: Table<Remote>,
    subscriptions: Vec<u64>,
    views: Table<u64>,
    pending: Table<Waiter>,
    next_request: u64,
    next_view: u32,
    history: Vec<HostCall>,
}

impl View for JsRoot {
    type V = JsModel;

    closed spec fn view(&self) -> JsModel {
        JsModel {
            ops: op_models(self.ops@),
            remotes: self.remotes@,
            subscriptions: self.subscriptions@,
            views: self.views@,
            pending: self.pending@,
            next_request: self.next_request,
            next_view: self.next_view,
            history: history_models(self.history@),
        }
    }
}

impl JsRoot {
    /// A runtime without a script.
    pub fn new() -> (root: JsRoot)
        ensures
            root@ == JsModel::fresh(Seq::empty()),
    {
        let root = JsRoot {
            ops: Vec::new(),
            remotes: Table::new(),
            subscriptions: Vec::new(),
            views: Table::new(),
            pending: Table::new(),
            next_request: 0,
            next_view: 0,
            history: Vec::new(),
        };
        assert(root@ =~= JsModel::fresh(Seq::empty()));
        root
    }

    fn push(&mut self, op: Op)
        ensures
            final(self)@ == old(self)@.queued(op@),
    {
        self.ops.push(op);
        assert(self@ =~= old(self)@.queued(op@));
    }

    /// The script calls a method of a remote.
    pub fn call(
        &mut self,
        target: &str,
        method: String,
        json: String,
        refs: &Vec<String>,
        resolve: u64,
        reject: u64,
    )
        ensures
            final(self)@ == old(self)@.queued(
                OpModel::Call {
                    target: spec_parse_id(target@),
                    method: method@,
                    payload: PayloadModel {
                        bytes: encode_utf8(json@),
                        refs: refs@.map_values(|text: String| spec_parse_id(text@)),
                    },
                    resolve,
                    reject,
                },
            ),
    {
        let payload = Payload::from_parts(json.as_str().as_bytes_vec(), parse_ids(refs));
        self.push(Op::Call { target: parse_id(target), method, payload, resolve, reject });
    }

    /// The script observes a remote.
    pub fn observe(&mut self, target: &str, callback: u64)
        ensures
            final(self)@ == old(self)@.queued(
                OpModel::Observe { observed: spec_parse_id(target@), callback },
            ),
    {
        self.push(Op::Observe { target: parse_id(target), callback });
    }

    /// The script opens a view on a surface; it knows the view by the number it gets.
    pub fn open_view(&mut self, surface: &str) -> (key: u32)
        requires
            old(self)@.next_view < u32::MAX,
        ensures
            key == old(self)@.next_view + 1,
            final(self)@ == (JsModel { next_view: key, ..old(self)@ }).queued(
                OpModel::OpenView { surface: spec_parse_id(surface@), opened: key },
            ),
    {
        self.next_view = self.next_view + 1;
        let key: u32 = self.next_view;
        self.push(Op::OpenView { surface: parse_id(surface), key });
        key
    }

    /// The script renders a tree into a view.
    pub fn render(&mut self, key: u32, tree: String)
        ensures
            final(self)@ == old(self)@.queued(OpModel::Render { key, tree: tree@ }),
    {
        self.push(Op::Render { key, tree });
    }

    /// The script answers a call.
    pub fn respond(&mut self, request: u64, json: String, refs: &Vec<String>, is_error: bool)
        ensures
            final(self)@ == old(self)@.queued(
                OpModel::Respond {
                    request,
                    outcome: if is_error {
                        Err(
                            match json_string(json@) {
                                Some(text) => text,
                                None => json@,
                            },
                        )
                    } else {
                        Ok(
                            PayloadModel {
                                bytes: encode_utf8(json@),
                                refs: refs@.map_values(|text: String| spec_parse_id(text@)),
                            },
                        )
                    },
                },
            ),
    {
        let outcome = if is_error {
            let decoded = parse_json_string(json.as_str());
            Err(error_text(decoded, json))
        } else {
            Ok(Payload::from_parts(json.as_str().as_bytes_vec(), parse_ids(refs)))
        };
        self.push(Op::Respond { request, outcome });
    }

    /// Take what the script asked for, to be applied in order. Applying may run the script
    /// again, so this is done until there is nothing.
    pub fn take_ops(&mut self) -> (ops: Vec<Op>)
        ensures
            op_models(ops@) == old(self)@.ops,
            final(self)@ == (JsModel { ops: Seq::empty(), ..old(self)@ }),
    {
        let mut ops: Vec<Op> = Vec::new();
        core::mem::swap(&mut ops, &mut self.ops);
        assert(self@ =~= (JsModel { ops: Seq::empty(), ..old(self)@ }));
        ops
    }

    /// Keep a remote for an object the script uses: connected the first time, and held
    /// until the script is unloaded.
    fn remote_for(&mut self, target: u64, objects: &mut Objects)
        requires
            old(objects)@.wf(),
            old(self)@.known_to(old(objects)@),
            old(self)@.can_take(target, old(objects)@),
        ensures
            final(objects)@.wf(),
            final(self)@.known_to(final(objects)@),
            old(self)@.remotes_wf() ==> final(self)@.remotes_wf(),
            final(self)@ == (if old(self)@.remotes.contains_key(target) {
                old(self)@
            } else {
                JsModel { remotes: old(self)@.remotes.insert(target, target), ..old(self)@ }
            }),
            final(objects)@ == (if old(self)@.remotes.contains_key(target) {
                old(objects)@
            } else {
                old(objects)@.connected(target, "opaque"@)
            }),
    {
        if !self.remotes.contains_key(target) {
            let remote = objects.connect_id(target, "opaque");
            assert(remote@ == target);
            self.remotes.insert(target, remote);
            assert(self@.remotes == old(self)@.remotes.insert(target, target));
        }
    }

    /// Whether a view more can be numbered.
    pub fn can_open_view(&self) -> (can: bool)
        ensures
            can == (self@.next_view < u32::MAX),
    {
        self.next_view < u32::MAX
    }

    /// Whether a call more can be put to the script.
    pub fn can_dispatch(&self) -> (can: bool)
        ensures
            can == (self@.next_request < u64::MAX),
    {
        self.next_request < u64::MAX
    }

    /// Whether every call of the history can be put to the script.
    pub fn can_replay(&self) -> (can: bool)
        ensures
            can == (self@.next_request + self@.history.len() <= u64::MAX),
    {
        self.history.len() as u64 <= u64::MAX - self.next_request
    }

    /// Whether an operation can be applied: there is a number for its request, and a remote
    /// more can be counted where it takes one.
    pub fn can_apply(&self, op: &Op, objects: &Objects) -> (can: bool)
        ensures
            can == self@.applies(op@, objects@),
    {
        match op {
            Op::Call { target, .. } => objects.can_request() && (self.remotes.contains_key(*target)
                || objects.can_hold(*target)),
            Op::Observe { target, .. } => self.remotes.contains_key(*target) || objects.can_hold(
                *target,
            ),
            _ => true,
        }
    }

    /// Apply one operation. A call goes out with the receipt, and an observed object is
    /// listened to, on a signal named by its id; the rest is told.
    pub fn apply_op(&mut self, op: Op, receipt: u64, objects: &mut Objects) -> (step: JsStep)
        requires
            old(objects)@.wf(),
            old(self)@.known_to(old(objects)@),
            old(self)@.applies(op@, old(objects)@),
        ensures
            final(objects)@.wf(),
            final(self)@.known_to(final(objects)@),
            old(self)@.remotes_wf() ==> final(self)@.remotes_wf(),
            match op {
                Op::Call { target, method, payload, resolve, reject } => {
                    let held = old(self)@.remotes.contains_key(target);
                    let connected = if held {
                        old(objects)@
                    } else {
                        old(objects)@.connected(target, "opaque"@)
                    };
                    &&& step == (JsStep::AwaitCall { resolve, reject })
                    &&& final(objects)@ == connected.called(
                        target,
                        method@,
                        payload@,
                        Some(receipt),
                        None,
                    )
                    &&& final(self)@ == (JsModel {
                        remotes: if held {
                            old(self)@.remotes
                        } else {
                            old(self)@.remotes.insert(target, target)
                        },
                        ..old(self)@
                    })
                },
                Op::Observe { target, callback } => {
                    let held = old(self)@.remotes.contains_key(target);
                    let connected = if held {
                        old(objects)@
                    } else {
                        old(objects)@.connected(target, "opaque"@)
                    };
                    let holding = JsModel {
                        remotes: if held {
                            old(self)@.remotes
                        } else {
                            old(self)@.remotes.insert(target, target)
                        },
                        ..old(self)@
                    };
                    match step {
                        JsStep::Observe { signal, callback: called } => {
                            &&& called == callback
                            &&& signal == (match connected.signal_at(target) {
                                Some(Some(known)) => known,
                                _ => target,
                            })
                            &&& connected.observed(target, target, final(objects)@)
                            &&& final(self)@ == (JsModel {
                                subscriptions: old(self)@.subscriptions.push(callback),
                                ..holding
                            })
                        },
                        JsStep::Unobserved(_) => connected.signal_at(target) is None
                            && final(objects)@ == connected && final(self)@ == holding,
                        _ => false,
                    }
                },
                Op::OpenView { surface, key } => step == (JsStep::OpenView { surface, key })
                    && final(self)@ == old(self)@ && final(objects)@ == old(objects)@,
                Op::Render { key, tree } => final(self)@ == old(self)@ && final(objects)@
                    == old(objects)@ && step == (if old(self)@.views.contains_key(key as u64) {
                    JsStep::Render { view: old(self)@.views[key as u64], tree }
                } else {
                    JsStep::Nothing
                }),
                Op::Respond { request, outcome } => final(objects)@ == old(objects)@
                    && final(self)@ == (JsModel {
                    pending: old(self)@.pending.remove(request),
                    ..old(self)@
                }) && step == (if old(self)@.pending.contains_key(request) {
                    match old(self)@.pending[request] {
                        Waiter::Host(receipt) => JsStep::Settle { receipt, outcome },
                        Waiter::Nobody => JsStep::Nothing,
                    }
                } else {
                    JsStep::Nothing
                }),
            },
    {
        match op {
            Op::Call { target, method, payload, resolve, reject } => {
                self.remote_for(target, objects);
                objects.send(target, method.as_str(), payload, Some(receipt), None);
                JsStep::AwaitCall { resolve, reject }
            },
            Op::Observe { target, callback } => {
                self.remote_for(target, objects);
                let signal: u64 = match objects.signal_for(target, target) {
                    Ok(Some(signal)) => signal,
                    Ok(None) => target,
                    Err(error) => {
                        return JsStep::Unobserved(error);
                    },
                };
                self.subscriptions.push(callback);
                JsStep::Observe { signal, callback }
            },
            Op::OpenView { surface, key } => JsStep::OpenView { surface, key },
            Op::Render { key, tree } => match self.views.get(key as u64) {
                Some(view) => JsStep::Render { view: *view, tree },
                None => JsStep::Nothing,
            },
            Op::Respond { request, outcome } => match self.pending.remove(request) {
                Some(Waiter::Host(receipt)) => JsStep::Settle { receipt, outcome },
                Some(Waiter::Nobody) => JsStep::Nothing,
                None => {
                    assert(self@ =~= (JsModel {
                        pending: old(self)@.pending.remove(request),
                        ..old(self)@
                    }));
                    JsStep::Nothing
                },
            },
        }
    }

    /// A view the script asked for is open.
    pub fn view_opened(&mut self, key: u32, view: u64)
        ensures
            final(self)@ == (JsModel {
                views: old(self)@.views.insert(key as u64, view),
                ..old(self)@
            }),
    {
        self.views.insert(key as u64, view);
    }

    /// Put a call of the host to the script, and remember it for replay on reload.
    pub fn dispatch_to_js(&mut self, method: &str, payload: &Payload, receipt: u64) -> (call:
        ScriptCall)
        requires
            old(self)@.next_request < u64::MAX,
        ensures
            ({
                let host = HostCallModel { method: method@, payload: payload@ };
                &&& is_script_call(call, (old(self)@.next_request + 1) as u64, host)
                &&& final(self)@ == (JsModel {
                    history: old(self)@.history.push(host),
                    ..old(self)@.asked(Waiter::Host(receipt))
                })
            }),
    {
        let host = HostCall { method: method.to_owned(), payload: payload.duplicate() };
        let ghost model = host@;
        let ghost before = self@.history;
        self.history.push(host);
        assert(self@.history =~= before.push(model));
        self.dispatch(method, payload, Waiter::Host(receipt))
    }

    fn dispatch(&mut self, method: &str, payload: &Payload, waiter: Waiter) -> (call: ScriptCall)
        requires
            old(self)@.next_request < u64::MAX,
        ensures
            is_script_call(
                call,
                (old(self)@.next_request + 1) as u64,
                HostCallModel { method: method@, payload: payload@ },
            ),
            final(self)@ == old(self)@.asked(waiter),
    {
        self.next_request = self.next_request + 1;
        let request: u64 = self.next_request;
        self.pending.insert(request, waiter);
        ScriptCall {
            request,
            method: method.to_owned(),
            json: text_of_bytes(&payload.bytes),
            refs: ref_strings(&payload.refs),
        }
    }

    /// A call could not be put to the script. Whoever waits for its answer gets the error; what
    /// the script may still answer is for nobody.
    pub fn dispatch_failed(&mut self, request: u64, error: String) -> (step: JsStep)
        ensures
            final(self)@ == old(self)@.given_up(request),
            step == (if old(self)@.pending.contains_key(request) {
                match old(self)@.pending[request] {
                    Waiter::Host(receipt) => JsStep::Settle { receipt, outcome: Err(error) },
                    Waiter::Nobody => JsStep::Nothing,
                }
            } else {
                JsStep::Nothing
            }),
    {
        let waiter: Waiter = match self.pending.get(request) {
            Some(waiter) => *waiter,
            None => {
                return JsStep::Nothing;
            },
        };
        self.pending.insert(request, Waiter::Nobody);
        match waiter {
            Waiter::Host(receipt) => JsStep::Settle { receipt, outcome: Err(error) },
            Waiter::Nobody => JsStep::Nothing,
        }
    }

    /// What the script's promise is settled with when a call it made resolves.
    pub fn settle(outcome: Outcome) -> (settlement: Settlement)
        ensures
            match (outcome, settlement) {
                (Ok(payload), Settlement::Resolve { json, refs }) => {
                    &&& json@ == lossy_text(payload@.bytes)
                    &&& refs@.len() == payload@.refs.len()
                    &&& forall|i: int|
                        0 <= i < payload@.refs.len() ==> (#[trigger] refs@[i])@ == decimal_chars(
                            payload@.refs[i] as nat,
                        )
                },
                (Err(error), Settlement::Reject(reason)) => reason == error,
                _ => false,
            },
    {
        match outcome {
            Ok(payload) => Settlement::Resolve {
                json: text_of_bytes(&payload.bytes),
                refs: ref_strings(&payload.refs),
            },
            Err(error) => Settlement::Reject(error),
        }
    }

    fn take_views(&mut self) -> (views: Vec<u64>)
        ensures
            lists_values(views@, old(self)@.views),
            final(self)@ == (JsModel { views: Map::empty(), ..old(self)@ }),
    {
        let keys = self.views.keys();
        let ghost all = self.views@;
        let mut views: Vec<u64> = Vec::new();
        let mut i: usize = 0;
        while i < keys.len()
            invariant
                i <= keys.len(),
                self@ == old(self)@,
                all == self.views@,
                forall|id: u64| keys@.contains(id) <==> all.contains_key(id),
                views@.len() == i,
                forall|j: int| 0 <= j < i ==> views@[j] == all[#[trigger] keys@[j]],
            decreases keys.len() - i,
        {
            assert(keys@.contains(keys@[i as int]));
            if let Some(view) = self.views.get(keys[i]) {
                views.push(*view);
            }
            i += 1;
        }
        assert(lists_keys(keys@, all.dom()));
        assert(views@ =~= keys@.map_values(|id: u64| all[id]));
        self.views.clear();
        views
    }

    fn take_waiting(&mut self) -> (receipts: Vec<u64>)
        ensures
            lists_waiting(receipts@, old(self)@.pending),
            final(self)@ == (JsModel { pending: Map::empty(), ..old(self)@ }),
    {
        let keys = self.pending.keys();
        let ghost all = self.pending@;
        let ghost mut ids: Seq<u64> = Seq::empty();
        let mut receipts: Vec<u64> = Vec::new();
        let mut i: usize = 0;
        assert(receipts@ =~= ids.map_values(|id: u64| all[id]->Host_0));
        while i < keys.len()
            invariant
                i <= keys.len(),
                self@ == old(self)@,
                all == self.pending@,
                keys@.no_duplicates(),
                forall|id: u64| keys@.contains(id) <==> all.contains_key(id),
                ids.no_duplicates(),
                forall|id: u64| #[trigger]
                    ids.contains(id) <==> keys@.take(i as int).contains(id) && all[id] is Host,
                receipts@ == ids.map_values(|id: u64| all[id]->Host_0),
            decreases keys.len() - i,
        {
            let id: u64 = keys[i];
            let ghost before = ids;
            assert(keys@.contains(id));
            assert(keys@.take(i as int + 1) =~= keys@.take(i as int).push(id));
            assert(!keys@.take(i as int).contains(id));
            assert(forall|other: u64| #[trigger]
                keys@.take(i as int).push(id).contains(other) <==> keys@.take(i as int).contains(
                    other,
                ) || other == id) by {
                broadcast use vstd::seq_lib::group_seq_properties;

            }
            if let Some(Waiter::Host(receipt)) = self.pending.get(id) {
                receipts.push(*receipt);
                proof {
                    assert(!before.contains(id));
                    assert(forall|other: u64| #[trigger]
                        before.push(id).contains(other) <==> before.contains(other) || other == id)
                        by {
                        broadcast use vstd::seq_lib::group_seq_properties;

                    }
                    ids = before.push(id);
                    assert(receipts@ =~= ids.map_values(|id: u64| all[id]->Host_0));
                }
            }
            i += 1;
        }
        assert(keys@.take(i as int) =~= keys@);
        assert(lists_keys(ids, host_requests(all)));
        self.pending.clear();
        receipts
    }

    fn take_remotes(&mut self) -> (remotes: Vec<Remote>)
        ensures
            lists_remotes(remotes@, old(self)@.remotes),
            final(self)@ == (JsModel { remotes: Map::empty(), ..old(self)@ }),
    {
        let keys = self.remotes.keys();
        let ghost all = self.remotes@;
        let mut remotes: Vec<Remote> = Vec::new();
        let mut i: usize = 0;
        assert forall|j: int| 0 <= j < keys@.len() implies all.contains_key(
            #[trigger] keys@[j],
        ) by {
            assert(keys@.contains(keys@[j]));
        }
        while i < keys.len()
            invariant
                i <= keys.len(),
                keys@.no_duplicates(),
                forall|id: u64| keys@.contains(id) <==> all.contains_key(id),
                self@ == (JsModel { remotes: self.remotes@, ..old(self)@ }),
                forall|j: int|
                    i <= j < keys@.len() ==> self.remotes@.contains_key(#[trigger] keys@[j])
                        && self.remotes@[keys@[j]] == all[keys@[j]],
                remotes@.len() == i,
                forall|j: int|
                    0 <= j < i ==> (#[trigger] remotes@[j]).spec_id() == all[keys@[j]],
            decreases keys.len() - i,
        {
            assert(keys@.contains(keys@[i as int]));
            if let Some(remote) = self.remotes.remove(keys[i]) {
                remotes.push(remote);
            }
            i += 1;
        }
        assert(lists_keys(keys@, all.dom()));
        assert(remotes@.map_values(|remote: Remote| remote.spec_id()) =~= keys@.map_values(
            |id: u64| all[id],
        ));
        self.remotes.clear();
        remotes
    }

    /// Discard the running script and everything it built, and start afresh: what the
    /// outside has to tear down comes back. The history stays, since it is about the host,
    /// not the script.
    pub fn load(&mut self) -> (teardown: Teardown)
        ensures
            final(self)@ == JsModel::fresh(old(self)@.history),
            teardown.subscriptions@ == old(self)@.subscriptions,
            lists_values(teardown.views@, old(self)@.views),
            lists_waiting(teardown.failed@, old(self)@.pending),
            lists_remotes(teardown.remotes@, old(self)@.remotes),
    {
        let mut subscriptions: Vec<u64> = Vec::new();
        core::mem::swap(&mut subscriptions, &mut self.subscriptions);
        let views = self.take_views();
        let failed = self.take_waiting();
        let remotes = self.take_remotes();
        self.ops = Vec::new();
        self.next_request = 0;
        self.next_view = 0;
        assert(self@ =~= JsModel::fresh(old(self)@.history));
        Teardown { views, failed, subscriptions, remotes }
    }

    /// Put every call the host has made to the new script, in order, so that what the host
    /// mounted comes back without the host knowing anything changed.
    pub fn replay(&mut self) -> (calls: Vec<ScriptCall>)
        requires
            old(self)@.next_request + old(self)@.history.len() <= u64::MAX,
        ensures
            calls@.len() == old(self)@.history.len(),
            forall|i: int|
                0 <= i < calls@.len() ==> is_script_call(
                    #[trigger] calls@[i],
                    (old(self)@.next_request + i + 1) as u64,
                    old(self)@.history[i],
                ),
            final(self)@ == old(self)@.replayed(old(self)@.history.len()),
    {
        let mut history: Vec<HostCall> = Vec::new();
        core::mem::swap(&mut history, &mut self.history);
        let ghost all = history_models(history@);
        let ghost start = JsModel { history: self@.history, ..old(self)@ };
        let mut calls: Vec<ScriptCall> = Vec::new();
        let mut i: usize = 0;
        assert(self@ =~= start);
        while i < history.len()
            invariant
                i <= history.len(),
                all == history_models(history@),
                start.next_request + all.len() <= u64::MAX,
                start.next_request == old(self)@.next_request,
                self@ == start.replayed(i as nat),
                self@.next_request == start.next_request + i,
                calls@.len() == i,
                forall|j: int|
                    0 <= j < i ==> is_script_call(
                        #[trigger] calls@[j],
                        (start.next_request + j + 1) as u64,
                        all[j],
                    ),
            decreases history.len() - i,
        {
            assert(history@[i as int]@ == all[i as int]);
            let call = self.dispatch(
                history[i].method.as_str(),
                &history[i].payload,
                Waiter::Nobody,
            );
            calls.push(call);
            i += 1;
        }
        self.history = history;
        proof {
            start.lemma_replay_keeps_the_rest(i as nat);
            old(self)@.lemma_replay_keeps_the_rest(i as nat);
            lemma_replay_ignores_history(start, old(self)@, i as nat);
        }
        assert(self@ =~= old(self)@.replayed(i as nat));
        calls
    }
}

impl JsRoot {
    /// The new script was evaluated, or failed with this message. Only one that evaluated is
    /// replayed the history; either way the history stays, for the next load.
    pub fn evaluated(&mut self, failure: Option<String>) -> (loaded: Loaded)
        requires
            failure is None ==> old(self)@.next_request + old(self)@.history.len() <= u64::MAX,
        ensures
            loaded.error == failure,
            failure is Some ==> loaded.calls@.len() == 0 && final(self)@ == old(self)@,
            failure is None ==> {
                &&& loaded.calls@.len() == old(self)@.history.len()
                &&& forall|i: int|
                    0 <= i < loaded.calls@.len() ==> is_script_call(
                        #[trigger] loaded.calls@[i],
                        (old(self)@.next_request + i + 1) as u64,
                        old(self)@.history[i],
                    )
                &&& final(self)@ == old(self)@.replayed(old(self)@.history.len())
            },
            final(self)@.history == old(self)@.history,
    {
        match failure {
            Some(error) => Loaded { error: Some(error), calls: Vec::new() },
            None => {
                proof {
                    self@.lemma_replay_keeps_the_rest(self@.history.len());
                }
                Loaded { error: None, calls: self.replay() }
            },
        }
    }
}

impl JsModel {
    /// The state after a script asked for some things, in order.
    pub open spec fn queued_all(self, ops: Seq<OpModel>) -> JsModel
        decreases ops.len(),
    {
        if ops.len() == 0 {
            self
        } else {
            self.queued_all(ops.drop_last()).queued(ops.last())
        }
    }
}

/// What a script asks for only waits, all of it and in the order it was asked for.
pub proof fn scripts_only_queue(state: JsModel, ops: Seq<OpModel>)
    ensures
        state.queued_all(ops) == (JsModel { ops: state.ops + ops, ..state }),
    decreases ops.len(),
{
    if ops.len() == 0 {
        assert(state.ops + ops =~= state.ops);
    } else {
        scripts_only_queue(state, ops.drop_last());
        assert((state.ops + ops.drop_last()).push(ops.last()) =~= state.ops + ops);
    }
}

impl JsModel {
    proof fn lemma_replay_keeps_the_rest(self, count: nat)
        ensures
            self.replayed(count).history == self.history,
        decreases count,
    {
        if count > 0 {
            self.lemma_replay_keeps_the_rest((count - 1) as nat);
        }
    }
}

proof fn lemma_replay_ignores_history(a: JsModel, b: JsModel, count: nat)
    requires
        a == (JsModel { history: a.history, ..b }),
    ensures
        a.replayed(count) == (JsModel { history: a.history, ..b.replayed(count) }),
    decreases count,
{
    if count > 0 {
        lemma_replay_ignores_history(a, b, (count - 1) as nat);
    }
}

/// A reload replays every call the host ever made, and the next one replays the same: the
/// history outlives the scripts.
pub proof fn reloads_replay_the_same_history(history: Seq<HostCallModel>, count: nat)
    requires
        count <= u64::MAX,
    ensures
        JsModel::fresh(history).replayed(count).history == history,
        JsModel::fresh(history).replayed(count).next_request == count,
        JsModel::fresh(JsModel::fresh(history).replayed(count).history) == JsModel::fresh(history),
    decreases count,
{
    if count > 0 {
        reloads_replay_the_same_history(history, (count - 1) as nat);
    }
}

/// What a script asked for is told under its own name: whom it calls, with what, and which
/// of its two functions settles the promise in which way; what it observes and who is called
/// back; which surface a view is for, what is shown in which, and what answers which call.
pub proof fn operations_hold_what_they_say(op: Op)
    ensures
        match op {
            Op::Call { target, method, payload, resolve, reject } => op@ == (OpModel::Call {
                target,
                method: method@,
                payload: PayloadModel { bytes: payload.bytes@, refs: payload.refs@ },
                resolve,
                reject,
            }),
            Op::Observe { target, callback } => op@ == (OpModel::Observe {
                observed: target,
                callback,
            }),
            Op::OpenView { surface, key } => op@ == (OpModel::OpenView { surface, opened: key }),
            Op::Render { key, tree } => op@ == (OpModel::Render { key, tree: tree@ }),
            Op::Respond { request, outcome } => {
                &&& op@ matches OpModel::Respond { request: answered, outcome: said }
                &&& answered == request
                &&& match outcome {
                    Ok(payload) => said matches Ok(model) && model.bytes == payload.bytes@
                        && model.refs == payload.refs@,
                    Err(error) => said matches Err(reason) && reason == error@,
                }
            },
        },
{
}

/// Operations and host calls are told one by one, in order.
pub proof fn queues_are_told_in_order(ops: Seq<Op>, calls: Seq<HostCall>, nth: int)
    ensures
        op_models(ops).len() == ops.len(),
        0 <= nth < ops.len() ==> op_models(ops)[nth] == ops[nth]@,
        history_models(calls).len() == calls.len(),
        0 <= nth < calls.len() ==> history_models(calls)[nth].method == calls[nth].method@,
        0 <= nth < calls.len() ==> history_models(calls)[nth].payload.bytes
            == calls[nth].payload.bytes@,
        0 <= nth < calls.len() ==> history_models(calls)[nth].payload.refs
            == calls[nth].payload.refs@,
{
}

/// A host call is put to the script under its own name, with its bytes as text and its refs
/// as decimal texts, in order.
pub proof fn scripts_are_called_as_the_host_called(
    call: ScriptCall,
    request: u64,
    host: HostCallModel,
    nth: int,
)
    requires
        is_script_call(call, request, host),
    ensures
        call.request == request,
        call.method@ == host.method,
        call.json@ == lossy_text(host.payload.bytes),
        call.refs@.len() == host.payload.refs.len(),
        0 <= nth < call.refs@.len() ==> call.refs@[nth]@ == decimal_chars(
            host.payload.refs[nth] as nat,
        ),
{
}

/// A color is the hexadecimal number a text says, whatever number of hashes it starts with; a
/// text that says none, or one of more than 32 bits, is no color.
pub proof fn colors_are_hexadecimal(text: Seq<char>, value: nat)
    ensures
        spec_parse_color(seq!['#'] + text) == spec_parse_color(text),
        (text.len() == 0 || text[0] != '#') && number_in(text, 16) == Some(value) && value
            <= 0xffff_ffff ==> spec_parse_color(text) == Some(value as u32),
        (text.len() == 0 || text[0] != '#') && number_in(text, 16) == Some(value) && value
            > 0xffff_ffff ==> spec_parse_color(text) is None,
        (text.len() == 0 || text[0] != '#') && number_in(text, 16) is None ==> spec_parse_color(
            text,
        ) is None,
{
    assert((seq!['#'] + text).drop_first() =~= text);
}

/// An id is the decimal number a text says; a text that says none, or one of more than 64
/// bits, stands for the root's.
pub proof fn ids_are_decimal(text: Seq<char>, value: nat)
    ensures
        number_in(text, 10) == Some(value) && value <= 0xffff_ffff_ffff_ffff ==> spec_parse_id(text)
            == value,
        number_in(text, 10) == Some(value) && value > 0xffff_ffff_ffff_ffff ==> spec_parse_id(text)
            == 0,
        number_in(text, 10) is None ==> spec_parse_id(text) == 0,
{
}

/// Each call put to the script has a number of its own, under which just its caller waits.
pub proof fn calls_are_waited_for_by_their_caller(state: JsModel, waiter: Waiter, request: u64)
    requires
        state.next_request < u64::MAX,
    ensures
        ({
            let after = state.asked(waiter);
            &&& after.next_request == state.next_request + 1
            &&& after.pending.contains_key(after.next_request)
            &&& after.pending[after.next_request] == waiter
            &&& request != after.next_request ==> after.pending.contains_key(request)
                == state.pending.contains_key(request) && after.pending[request]
                == state.pending[request]
            &&& after.ops == state.ops
            &&& after.remotes == state.remotes
            &&& after.views == state.views
            &&& after.history == state.history
        }),
        state.pending.contains_key(request) ==> state.given_up(request).pending[request] is Nobody,
        !state.pending.contains_key(request) ==> state.given_up(request) == state,
{
}

/// Nobody waits for the answers to a replay: the host had them before.
pub proof fn replays_are_for_nobody(state: JsModel, count: nat, nth: nat)
    requires
        state.next_request + count <= u64::MAX,
        1 <= nth <= count,
    ensures
        state.replayed(count).next_request == state.next_request + count,
        state.replayed(count).pending.contains_key((state.next_request + nth) as u64),
        state.replayed(count).pending[(state.next_request + nth) as u64] is Nobody,
        state.replayed(count).ops == state.ops,
    decreases count,
{
    if nth < count {
        replays_are_for_nobody(state, (count - 1) as nat, nth);
    } else if count > 1 {
        replays_are_for_nobody(state, (count - 1) as nat, 1);
    } else {
        assert(state.replayed(0) == state);
    }
}

/// A fresh runtime has nothing of the script before it but the host's calls.
pub proof fn fresh_runtimes_are_empty(history: Seq<HostCallModel>, id: u64)
    ensures
        ({
            let fresh = JsModel::fresh(history);
            &&& fresh.ops.len() == 0
            &&& !fresh.remotes.contains_key(id)
            &&& fresh.subscriptions.len() == 0
            &&& !fresh.views.contains_key(id)
            &&& !fresh.pending.contains_key(id)
            &&& fresh.next_request == 0
            &&& fresh.next_view == 0
            &&& fresh.history == history
        }),
{
}

/// What a reload tears down is everything there was: each open view, each remote, and each
/// call the host waits on, and nothing else.
pub proof fn reloads_tear_down_everything(
    views: Seq<u64>,
    open: Map<u64, u64>,
    receipts: Seq<u64>,
    pending: Map<u64, Waiter>,
    view: u64,
    receipt: u64,
)
    requires
        lists_values(views, open),
        lists_waiting(receipts, pending),
    ensures
        views.contains(view) <==> exists|key: u64| #[trigger]
            open.contains_key(key) && open[key] == view,
        receipts.contains(receipt) <==> exists|request: u64| #[trigger]
            pending.contains_key(request) && pending[request] == Waiter::Host(receipt),
{
    let keys = choose|ids: Seq<u64>| #[trigger]
        lists_keys(ids, open.dom()) && views == ids.map_values(|id: u64| open[id]);
    let requests = choose|ids: Seq<u64>| #[trigger]
        lists_keys(ids, host_requests(pending)) && receipts == ids.map_values(
            |id: u64| pending[id]->Host_0,
        );
    if views.contains(view) {
        let i = choose|i: int| 0 <= i < views.len() && views[i] == view;
        assert(keys.contains(keys[i]));
        assert(open.contains_key(keys[i]));
    }
    if exists|key: u64| #[trigger] open.contains_key(key) && open[key] == view {
        let key = choose|key: u64| #[trigger] open.contains_key(key) && open[key] == view;
        assert(open.dom().contains(key));
        assert(keys.contains(key));
        let i = choose|i: int| 0 <= i < keys.len() && keys[i] == key;
        assert(views[i] == view);
    }
    if receipts.contains(receipt) {
        let i = choose|i: int| 0 <= i < receipts.len() && receipts[i] == receipt;
        assert(requests.contains(requests[i]));
        assert(host_requests(pending).contains(requests[i]));
        assert(pending.contains_key(requests[i]));
    }
    if exists|request: u64| #[trigger]
        pending.contains_key(request) && pending[request] == Waiter::Host(receipt) {
        let request = choose|request: u64| #[trigger]
            pending.contains_key(request) && pending[request] == Waiter::Host(receipt);
        assert(host_requests(pending).contains(request));
        assert(requests.contains(request));
        let i = choose|i: int| 0 <= i < requests.len() && requests[i] == request;
        assert(receipts[i] == receipt);
    }
}

/// A call or an observation can be applied where the script holds a remote of its target or one
/// more can be counted, and a call where a request can be numbered besides; anything else always
/// can.
pub proof fn operations_apply_while_counts_last(
    state: JsModel,
    op: OpModel,
    objects: ObjectsModel,
    target: u64,
)
    ensures
        state.can_take(target, objects) <==> state.remotes.contains_key(target)
            || !objects.projections.contains_key(target)
            || objects.projections[target].handles < 0xffff_ffff_ffff_ffff,
        op matches OpModel::Call { target: called, .. } ==> (state.applies(op, objects)
            <==> objects.next_request_id < 0xffff_ffff_ffff_ffff && state.can_take(
            called,
            objects,
        )),
        op matches OpModel::Observe { observed, .. } ==> (state.applies(op, objects)
            <==> state.can_take(observed, objects)),
        op is OpenView || op is Render || op is Respond ==> state.applies(op, objects),
{
}

} // verus!
