//! The worker that owns a plugin's store: it takes requests one at a time, in order, and
//! lets everything that is already queued ride the same turn.

use std::collections::VecDeque;
use vstd::prelude::*;
use crate::display_list::Scene;
use crate::frame::{WireFrame, WireModel};
use crate::input_query::InputQuery;
use crate::text::joined;

verus! {

/// What some wire records hold, in order.
pub open spec fn wire_models(frames: Seq<WireFrame>) -> Seq<WireModel> {
    frames.map_values(|frame: WireFrame| frame@)
}

/// What one guest turn hands back: the frames it sent, the display lists it drew, and
/// when it wants to be woken.
#[derive(Debug, PartialEq)]
pub struct Turn {
    pub frames: Vec<WireFrame>,
    pub scenes: Vec<Scene>,
    pub overlays: Vec<Scene>,
    pub wake_after_ms: Option<u32>,
}

/// One call into the guest, queued for the worker. A reply is known by the number the
/// asking side gave it.
#[derive(Debug, PartialEq)]
pub enum PluginRequest {
    Init,
    Tick(Vec<WireFrame>),
    /// A synchronous query the UI thread is waiting on.
    Query { view: u64, query: InputQuery, reply: u64 },
}

/// What a [`PluginRequest`] holds.
#[verifier::ext_equal]
pub enum RequestModel {
    Init,
    Tick(Seq<WireModel>),
    Query { view: u64, query: InputQuery, reply: u64 },
}

impl View for PluginRequest {
    type V = RequestModel;

    open spec fn view(&self) -> RequestModel {
        match *self {
            PluginRequest::Init => RequestModel::Init,
            PluginRequest::Tick(frames) => RequestModel::Tick(wire_models(frames@)),
            PluginRequest::Query { view, query, reply } => RequestModel::Query {
                view,
                query,
                reply,
            },
        }
    }
}

/// A query to put to the guest.
#[derive(Debug, PartialEq)]
pub struct Question {
    pub view: u64,
    pub query: InputQuery,
    pub reply: u64,
}

/// What the worker does next.
#[derive(Debug, PartialEq)]
pub enum WorkerStep {
    /// Initialize the guest.
    Init,
    /// Give the guest a turn with these frames; then, if the turn did not fail, put the
    /// question, before the turn's output is handed on (see [`question_after`]).
    Tick { inbound: Vec<WireFrame>, then: Option<Question> },
    /// Put a question to the guest, between turns.
    Ask(Question),
}

/// What a [`WorkerStep`] holds.
#[verifier::ext_equal]
pub enum StepModel {
    Init,
    Tick { inbound: Seq<WireModel>, then: Option<Question> },
    Ask(Question),
}

impl View for WorkerStep {
    type V = StepModel;

    open spec fn view(&self) -> StepModel {
        match *self {
            WorkerStep::Init => StepModel::Init,
            WorkerStep::Tick { inbound, then } => StepModel::Tick {
                inbound: wire_models(inbound@),
                then,
            },
            WorkerStep::Ask(question) => StepModel::Ask(question),
        }
    }
}

/// How many of the requests that follow a tick are ticks too, without a gap.
pub open spec fn leading_ticks(requests: Seq<RequestModel>) -> nat
    decreases requests.len(),
{
    if requests.len() > 0 && requests[0] is Tick {
        1 + leading_ticks(requests.drop_first())
    } else {
        0
    }
}

/// The frames of the leading ticks, in order.
pub open spec fn leading_frames(requests: Seq<RequestModel>) -> Seq<WireModel>
    decreases requests.len(),
{
    if requests.len() > 0 {
        match requests[0] {
            RequestModel::Tick(frames) => frames + leading_frames(requests.drop_first()),
            _ => Seq::empty(),
        }
    } else {
        Seq::empty()
    }
}

/// What the worker does about what is queued, if anything is.
pub open spec fn next_step(requests: Seq<RequestModel>) -> Option<StepModel> {
    if requests.len() == 0 {
        None
    } else {
        match requests[0] {
            RequestModel::Init => Some(StepModel::Init),
            RequestModel::Query { view, query, reply } => Some(
                StepModel::Ask(Question { view, query, reply }),
            ),
            RequestModel::Tick(_) => {
                let ticks = leading_ticks(requests);
                Some(
                    StepModel::Tick {
                        inbound: leading_frames(requests),
                        then: if ticks < requests.len() {
                            match requests[ticks as int] {
                                RequestModel::Query { view, query, reply } => Some(
                                    Question { view, query, reply },
                                ),
                                _ => None,
                            }
                        } else {
                            None
                        },
                    },
                )
            },
        }
    }
}

/// How many requests that step takes: behind ticks, one request more rides along.
pub open spec fn step_length(requests: Seq<RequestModel>) -> nat {
    if requests.len() == 0 {
        0
    } else if requests[0] is Tick {
        let ticks = leading_ticks(requests);
        if ticks < requests.len() {
            ticks + 1
        } else {
            ticks
        }
    } else {
        1
    }
}

/// Requests to the worker, in order.
pub struct RequestQueue {
    requests: VecDeque<PluginRequest>,
}

impl View for RequestQueue {
    type V = Seq<RequestModel>;

    closed spec fn view(&self) -> Seq<RequestModel> {
        self.requests@.map_values(|request: PluginRequest| request@)
    }
}

impl RequestQueue {
    /// The queue without requests.
    pub fn new() -> (queue: RequestQueue)
        ensures
            queue@ == Seq::<RequestModel>::empty(),
    {
        let queue = RequestQueue { requests: VecDeque::new() };
        assert(queue@ =~= Seq::<RequestModel>::empty());
        queue
    }

    /// Put a request at the end.
    pub fn push(&mut self, request: PluginRequest)
        ensures
            final(self)@ == old(self)@.push(request@),
    {
        self.requests.push_back(request);
        assert(self@ =~= old(self)@.push(request@));
    }

    fn pop(&mut self) -> (request: Option<PluginRequest>)
        ensures
            match request {
                Some(request) => old(self)@.len() > 0 && request@ == old(self)@[0]
                    && final(self)@ == old(self)@.drop_first(),
                None => old(self)@.len() == 0 && final(self)@ == old(self)@,
            },
    {
        let request = self.requests.pop_front();
        assert(request is Some ==> self@ =~= old(self)@.drop_first());
        request
    }

    /// Take what the worker does next, with everything that rides the same turn: one
    /// boundary crossing per burst, and order is kept. A question queued behind the ticks
    /// is put after them. (Initialization is the first request of all, so it is never
    /// queued behind a tick.)
    pub fn next_step(&mut self) -> (step: Option<WorkerStep>)
        ensures
            match step {
                Some(step) => next_step(old(self)@) == Some(step@),
                None => next_step(old(self)@) is None,
            },
            final(self)@ == old(self)@.skip(step_length(old(self)@) as int),
    {
        let ghost start = self@;
        let first = match self.pop() {
            Some(first) => first,
            None => {
                assert(self@ =~= start.skip(0));
                return None;
            },
        };
        assert(start.skip(1) =~= start.drop_first());
        match first {
            PluginRequest::Init => Some(WorkerStep::Init),
            PluginRequest::Query { view, query, reply } => Some(
                WorkerStep::Ask(Question { view, query, reply }),
            ),
            PluginRequest::Tick(frames) => {
                let mut inbound = frames;
                let ghost mut taken: nat = 1;
                assert(leading_ticks(start) == 1 + leading_ticks(start.skip(1)));
                assert(leading_frames(start) =~= wire_models(inbound@) + leading_frames(
                    start.skip(1),
                ));
                loop
                    invariant
                        start == old(self)@,
                        1 <= taken <= start.len(),
                        self@ == start.skip(taken as int),
                        start[0] is Tick,
                        leading_ticks(start) == taken + leading_ticks(start.skip(taken as int)),
                        leading_frames(start) == wire_models(inbound@) + leading_frames(
                            start.skip(taken as int),
                        ),
                    decreases start.len() - taken,
                {
                    let ghost rest = self@;
                    match self.pop() {
                        Some(PluginRequest::Tick(more)) => {
                            let mut more = more;
                            let ghost before = inbound@;
                            let ghost added = more@;
                            inbound.append(&mut more);
                            proof {
                                assert(rest.drop_first() =~= start.skip(taken as int + 1));
                                assert(wire_models(inbound@) =~= wire_models(before) + wire_models(
                                    added,
                                ));
                                assert(leading_frames(start) =~= wire_models(inbound@)
                                    + leading_frames(start.skip(taken as int + 1)));
                                taken = taken + 1;
                            }
                        },
                        Some(PluginRequest::Query { view, query, reply }) => {
                            assert(rest.drop_first() =~= start.skip(taken as int + 1));
                            assert(leading_ticks(rest) == 0 && rest[0] == start[taken as int]);
                            assert(leading_frames(start) =~= wire_models(inbound@));
                            return Some(
                                WorkerStep::Tick {
                                    inbound,
                                    then: Some(Question { view, query, reply }),
                                },
                            );
                        },
                        Some(PluginRequest::Init) => {
                            assert(rest.drop_first() =~= start.skip(taken as int + 1));
                            assert(leading_ticks(rest) == 0 && rest[0] == start[taken as int]);
                            assert(leading_frames(start) =~= wire_models(inbound@));
                            return Some(WorkerStep::Tick { inbound, then: None });
                        },
                        None => {
                            assert(leading_frames(start) =~= wire_models(inbound@));
                            return Some(WorkerStep::Tick { inbound, then: None });
                        },
                    }
                }
            },
        }
    }
}

/// What the worker hands on after a turn.
#[derive(Debug, PartialEq)]
pub enum TurnReport {
    /// The turn's output, to be applied; the worker goes on.
    Applied(Turn),
    /// The guest is in an unknown state: the worker stops driving it, and this is why.
    Stopped(String),
}

/// What a turn's outcome means. A trap (turn budget, memory limit, guest panic) stops the
/// plugin.
pub fn report_turn(outcome: Result<Turn, String>) -> (report: TurnReport)
    ensures
        match (outcome, report) {
            (Ok(turn), TurnReport::Applied(applied)) => applied == turn,
            (Err(error), TurnReport::Stopped(reason)) => reason@ == "plugin stopped: "@ + error@,
            _ => false,
        },
{
    match outcome {
        Ok(turn) => TurnReport::Applied(turn),
        Err(error) => TurnReport::Stopped(joined("plugin stopped: ", error.as_str())),
    }
}

/// The question to put after a turn. A guest whose turn failed is dead: it is asked nothing
/// more.
pub fn question_after(report: &TurnReport, then: Option<Question>) -> (asked: Option<Question>)
    ensures
        asked == (if report is Applied {
            then
        } else {
            None
        }),
{
    match report {
        TurnReport::Applied(_) => then,
        TurnReport::Stopped(_) => None,
    }
}

/// What is on its way from the worker to the host.
#[verifier::ext_equal]
pub struct ReportsModel {
    /// What the worker handed on and the host has not taken yet, in order.
    pub waiting: Seq<TurnReport>,
    /// Whether the worker stopped: nothing follows that.
    pub ended: bool,
}

impl ReportsModel {
    /// The state in which nothing was handed on yet.
    pub open spec fn initial() -> ReportsModel {
        ReportsModel { waiting: Seq::empty(), ended: false }
    }

    /// The state after the worker handed a report on.
    pub open spec fn pushed(self, report: TurnReport) -> ReportsModel {
        if self.ended {
            self
        } else {
            ReportsModel { waiting: self.waiting.push(report), ended: report is Stopped }
        }
    }

    /// The state after the host took a report, if there was one.
    pub open spec fn taken(self) -> ReportsModel {
        if self.waiting.len() == 0 {
            self
        } else {
            ReportsModel { waiting: self.waiting.drop_first(), ..self }
        }
    }
}

/// The reports of the worker's turns, on their way to the host.
pub struct ReportQueue {
    waiting: VecDeque<TurnReport>,
    ended: bool,
}

impl View for ReportQueue {
    type V = ReportsModel;

    closed spec fn view(&self) -> ReportsModel {
        ReportsModel { waiting: self.waiting@, ended: self.ended }
    }
}

impl ReportQueue {
    /// The queue before the first turn.
    pub fn new() -> (queue: ReportQueue)
        ensures
            queue@ == ReportsModel::initial(),
    {
        ReportQueue { waiting: VecDeque::new(), ended: false }
    }

    /// Hand a turn's report on. After one that stopped there is none: the guest is not
    /// driven any more.
    pub fn push(&mut self, report: TurnReport)
        ensures
            final(self)@ == old(self)@.pushed(report),
    {
        if !self.ended {
            self.ended = matches!(report, TurnReport::Stopped(_));
            self.waiting.push_back(report);
        }
    }

    /// Take the oldest report that was not taken.
    pub fn next_report(&mut self) -> (report: Option<TurnReport>)
        ensures
            final(self)@ == old(self)@.taken(),
            report == (if old(self)@.waiting.len() == 0 {
                None
            } else {
                Some(old(self)@.waiting[0])
            }),
    {
        let report = self.waiting.pop_front();
        assert(self@ =~= old(self)@.taken());
        report
    }
}

/// One thing that happens between the worker and the host.
#[verifier::ext_equal]
pub enum ReportEvent {
    /// The worker ran a turn.
    Ran(TurnReport),
    /// The host took a report, if there was one.
    Taken,
}

/// Where the queue stands after some events.
pub open spec fn reports_after(events: Seq<ReportEvent>) -> ReportsModel
    decreases events.len(),
{
    if events.len() == 0 {
        ReportsModel::initial()
    } else {
        let before = reports_after(events.drop_last());
        match events.last() {
            ReportEvent::Ran(report) => before.pushed(report),
            ReportEvent::Taken => before.taken(),
        }
    }
}

/// What the host took in these events, in order.
pub open spec fn reports_taken(events: Seq<ReportEvent>) -> Seq<TurnReport>
    decreases events.len(),
{
    if events.len() == 0 {
        Seq::empty()
    } else {
        let before = reports_after(events.drop_last());
        let taken = reports_taken(events.drop_last());
        if events.last() is Taken && before.waiting.len() > 0 {
            taken.push(before.waiting[0])
        } else {
            taken
        }
    }
}

/// The reports of the turns that ran in these events, in order, up to the one that stopped.
pub open spec fn reports_run(events: Seq<ReportEvent>) -> Seq<TurnReport>
    decreases events.len(),
{
    if events.len() == 0 {
        Seq::empty()
    } else {
        let run = reports_run(events.drop_last());
        match events.last() {
            ReportEvent::Ran(report) if run.len() == 0 || run.last() is Applied => run.push(report),
            _ => run,
        }
    }
}

/// The host takes the turns in the order they ran, each once: what it took, followed by what
/// is on its way, is what ran. Nothing is behind a turn that failed.
pub proof fn turns_are_taken_in_the_order_they_ran(events: Seq<ReportEvent>)
    ensures
        reports_taken(events) + reports_after(events).waiting == reports_run(events),
        reports_after(events).ended <==> reports_run(events).len() > 0 && reports_run(
            events,
        ).last() is Stopped,
    decreases events.len(),
{
    if events.len() > 0 {
        let before = reports_after(events.drop_last());
        let taken = reports_taken(events.drop_last());
        turns_are_taken_in_the_order_they_ran(events.drop_last());
        match events.last() {
            ReportEvent::Ran(report) => {
                if !before.ended {
                    assert((taken + before.waiting).push(report) =~= taken + before.waiting.push(
                        report,
                    ));
                }
            },
            ReportEvent::Taken => {
                if before.waiting.len() > 0 {
                    assert(taken.push(before.waiting[0]) + before.waiting.drop_first() =~= taken
                        + before.waiting);
                }
            },
        }
    }
    assert(reports_taken(events) + reports_after(events).waiting =~= reports_run(events));
}

/// The frames of all the ticks among some requests, in order.
pub open spec fn all_frames(requests: Seq<RequestModel>) -> Seq<WireModel>
    decreases requests.len(),
{
    if requests.len() == 0 {
        Seq::empty()
    } else {
        (match requests[0] {
            RequestModel::Tick(frames) => frames,
            _ => Seq::empty(),
        }) + all_frames(requests.drop_first())
    }
}

/// The frames of requests queued behind others come behind theirs.
pub proof fn lemma_frames_behind(first: Seq<RequestModel>, second: Seq<RequestModel>)
    ensures
        all_frames(first + second) == all_frames(first) + all_frames(second),
    decreases first.len(),
{
    if first.len() == 0 {
        assert(first + second =~= second);
        assert(all_frames(first) + all_frames(second) =~= all_frames(second));
    } else {
        lemma_frames_behind(first.drop_first(), second);
        assert((first + second).drop_first() =~= first.drop_first() + second);
        assert(all_frames(first + second) =~= all_frames(first) + all_frames(second));
    }
}

/// No frame is lost, doubled or reordered by riding along: what a step delivers, followed
/// by what is still queued, is what was queued.
pub proof fn steps_keep_every_frame(requests: Seq<RequestModel>)
    requires
        requests.len() > 0,
    ensures
        all_frames(requests) == (match next_step(requests) {
            Some(StepModel::Tick { inbound, .. }) => inbound,
            _ => Seq::empty(),
        }) + all_frames(requests.skip(step_length(requests) as int)),
        0 < step_length(requests) <= requests.len(),
{
    lemma_leading_ticks_lead(requests);
    let ticks = leading_ticks(requests) as int;
    if requests[0] is Tick {
        if ticks < requests.len() {
            assert(requests.skip(ticks).drop_first() =~= requests.skip(ticks + 1));
            assert(all_frames(requests) =~= leading_frames(requests) + all_frames(
                requests.skip(ticks + 1),
            ));
        }
    } else {
        assert(requests.skip(1) =~= requests.drop_first());
        assert(all_frames(requests) =~= all_frames(requests.skip(1)));
    }
}

proof fn lemma_leading_ticks_lead(requests: Seq<RequestModel>)
    ensures
        leading_ticks(requests) <= requests.len(),
        all_frames(requests) == leading_frames(requests) + all_frames(
            requests.skip(leading_ticks(requests) as int),
        ),
        leading_ticks(requests) < requests.len() ==> !(
        requests[leading_ticks(requests) as int] is Tick),
    decreases requests.len(),
{
    if requests.len() > 0 && requests[0] is Tick {
        let rest = requests.drop_first();
        lemma_leading_ticks_lead(rest);
        assert(rest.skip(leading_ticks(rest) as int) =~= requests.skip(
            leading_ticks(requests) as int,
        ));
        assert(all_frames(requests) =~= leading_frames(requests) + all_frames(
            requests.skip(leading_ticks(requests) as int),
        ));
    } else {
        assert(requests.skip(0) =~= requests);
        assert(all_frames(requests) =~= leading_frames(requests) + all_frames(requests));
    }
}

/// What a request and a step hold is what they are.
pub proof fn requests_hold_what_they_say(request: PluginRequest, step: WorkerStep)
    ensures
        match request {
            PluginRequest::Init => request@ is Init,
            PluginRequest::Tick(frames) => request@ == RequestModel::Tick(wire_models(frames@)),
            PluginRequest::Query { view, query, reply } => request@ == (RequestModel::Query {
                view,
                query,
                reply,
            }),
        },
        match step {
            WorkerStep::Init => step@ is Init,
            WorkerStep::Tick { inbound, then } => step@ == (StepModel::Tick {
                inbound: wire_models(inbound@),
                then,
            }),
            WorkerStep::Ask(question) => step@ == StepModel::Ask(question),
        },
{
}

/// The questions among some requests, in order.
pub open spec fn all_questions(requests: Seq<RequestModel>) -> Seq<Question>
    decreases requests.len(),
{
    if requests.len() == 0 {
        Seq::empty()
    } else {
        (match requests[0] {
            RequestModel::Query { view, query, reply } => seq![Question { view, query, reply }],
            _ => Seq::empty(),
        }) + all_questions(requests.drop_first())
    }
}

proof fn lemma_ticks_ask_nothing(requests: Seq<RequestModel>)
    ensures
        leading_ticks(requests) <= requests.len(),
        all_questions(requests) == all_questions(requests.skip(leading_ticks(requests) as int)),
        forall|i: int| 0 <= i < leading_ticks(requests) ==> (#[trigger] requests[i]) is Tick,
    decreases requests.len(),
{
    if requests.len() > 0 && requests[0] is Tick {
        let rest = requests.drop_first();
        lemma_ticks_ask_nothing(rest);
        assert(rest.skip(leading_ticks(rest) as int) =~= requests.skip(
            leading_ticks(requests) as int,
        ));
        assert(all_questions(requests) =~= all_questions(rest));
        assert forall|i: int| 0 <= i < leading_ticks(requests) implies (#[trigger] requests[i])
            is Tick by {
            if i > 0 {
                assert(rest[i - 1] is Tick);
            }
        }
    } else {
        assert(requests.skip(0) =~= requests);
    }
}

/// No question is lost, doubled or reordered: what a step puts, followed by what is still
/// queued, is what was asked, each question about its view and under its reply.
pub proof fn steps_keep_every_question(requests: Seq<RequestModel>)
    requires
        requests.len() > 0,
    ensures
        all_questions(requests) == (match next_step(requests) {
            Some(StepModel::Tick { then: Some(question), .. }) => seq![question],
            Some(StepModel::Ask(question)) => seq![question],
            _ => Seq::empty(),
        }) + all_questions(requests.skip(step_length(requests) as int)),
{
    lemma_ticks_ask_nothing(requests);
    lemma_leading_ticks_lead(requests);
    let ticks = leading_ticks(requests) as int;
    if requests[0] is Tick {
        if ticks < requests.len() {
            let rest = requests.skip(ticks);
            assert(rest.drop_first() =~= requests.skip(ticks + 1));
            assert(rest[0] == requests[ticks]);
            assert(all_questions(requests) =~= (match requests[ticks] {
                RequestModel::Query { view, query, reply } => seq![Question { view, query, reply }],
                _ => Seq::empty(),
            }) + all_questions(requests.skip(ticks + 1)));
        } else {
            assert(requests.skip(ticks).len() == 0);
            assert(all_questions(requests) =~= Seq::empty());
            assert(requests.skip(step_length(requests) as int).len() == 0);
        }
    } else {
        assert(requests.skip(1) =~= requests.drop_first());
        assert(all_questions(requests) =~= (match requests[0] {
            RequestModel::Query { view, query, reply } => seq![Question { view, query, reply }],
            _ => Seq::empty(),
        }) + all_questions(requests.skip(1)));
    }
}

/// A question is put where it was asked: after every frame queued before it, and before every
/// frame queued after it. What is first in the queue is done first, and the guest is
/// initialized where that was asked.
pub proof fn steps_keep_the_order_of_requests(requests: Seq<RequestModel>)
    requires
        requests.len() > 0,
    ensures
        requests[0] is Init ==> next_step(requests) == Some(StepModel::Init) && step_length(
            requests,
        ) == 1,
        requests[0] matches RequestModel::Query { view, query, reply } ==> next_step(requests)
            == Some(StepModel::Ask(Question { view, query, reply })) && step_length(requests) == 1,
        requests[0] is Tick ==> next_step(requests) matches Some(StepModel::Tick { .. }),
        next_step(requests) matches Some(StepModel::Tick { inbound, then }) ==> {
            let taken = step_length(requests) as int;
            &&& inbound == all_frames(requests.take(taken))
            &&& forall|i: int| 0 <= i < taken - 1 ==> (#[trigger] requests[i]) is Tick
            &&& then matches Some(question) ==> requests[taken - 1] == (RequestModel::Query {
                view: question.view,
                query: question.query,
                reply: question.reply,
            })
            &&& then is None ==> !(requests[taken - 1] is Query)
        },
{
    lemma_ticks_ask_nothing(requests);
    lemma_leading_ticks_lead(requests);
    let taken = step_length(requests) as int;
    if requests[0] is Tick {
        let ticks = leading_ticks(requests) as int;
        assert(1 <= ticks);
        steps_keep_every_frame(requests);
        lemma_frames_behind(requests.take(taken), requests.skip(taken));
        assert(requests.take(taken) + requests.skip(taken) =~= requests);
        let rest = all_frames(requests.skip(taken));
        let inbound = leading_frames(requests);
        let early = all_frames(requests.take(taken));
        assert(inbound + rest == early + rest);
        assert(inbound.len() == early.len());
        assert((inbound + rest).take(inbound.len() as int) =~= inbound);
        assert((early + rest).take(early.len() as int) =~= early);
        if ticks == requests.len() {
            assert(requests[taken - 1] is Tick);
        }
    }
}

} // verus!
