//! A single-threaded scheduler that the host pumps, turn by turn. The guest never blocks:
//! all work is queued here, every turn drains the queues, and the earliest remaining timer
//! is the wakeup the host should schedule.
//!
//! Times are nanoseconds on one clock; runnables are known by the numbers the UI
//! framework's executor gave them.

use std::collections::VecDeque;
use vstd::multiset::Multiset;
use vstd::prelude::*;

verus! {

/// A runnable that waits for its time.
#[derive(Clone, Copy, Debug, PartialEq, Eq, Structural)]
pub struct Timer {
    pub deadline: u64,
    pub runnable: u64,
}

/// What is to be run in one pass: the due timers in the order they were set, then the
/// runnable that waited longest.
#[derive(Debug, PartialEq)]
pub struct Pass {
    pub due_timers: Vec<u64>,
    pub runnable: Option<u64>,
}

/// What waits to be run.
#[verifier::ext_equal]
pub struct DispatcherModel {
    pub runnables: Seq<u64>,
    pub timers: Seq<Timer>,
}

/// Whether a timer is due.
pub open spec fn is_due(now: u64) -> spec_fn(Timer) -> bool {
    |timer: Timer| timer.deadline <= now
}

/// Whether a timer is not due yet.
pub open spec fn is_pending(now: u64) -> spec_fn(Timer) -> bool {
    |timer: Timer| timer.deadline > now
}

/// The runnables of some timers.
pub open spec fn timed_runnables(timers: Seq<Timer>) -> Seq<u64> {
    timers.map_values(|timer: Timer| timer.runnable)
}

/// How long a timer still waits.
pub open spec fn remaining(timer: Timer, now: u64) -> u64 {
    if timer.deadline <= now {
        0
    } else {
        (timer.deadline - now) as u64
    }
}

/// Whether `delay` is how long the earliest timer still waits.
pub open spec fn is_earliest(timers: Seq<Timer>, now: u64, delay: u64) -> bool {
    &&& exists|i: int| 0 <= i < timers.len() && remaining(#[trigger] timers[i], now) == delay
    &&& forall|i: int| 0 <= i < timers.len() ==> delay <= remaining(#[trigger] timers[i], now)
}

/// A delay in whole milliseconds, as far as 32 bits go.
pub open spec fn whole_millis(delay: u64) -> u32 {
    if delay / 1_000_000 <= u32::MAX {
        (delay / 1_000_000) as u32
    } else {
        u32::MAX
    }
}

impl DispatcherModel {
    /// What the pass at `now` leaves waiting.
    pub open spec fn after_pass(self, now: u64) -> DispatcherModel {
        DispatcherModel {
            runnables: if self.runnables.len() > 0 {
                self.runnables.drop_first()
            } else {
                self.runnables
            },
            timers: self.timers.filter(is_pending(now)),
        }
    }

    /// Whether a pass at `now` has nothing to run.
    pub open spec fn idle(self, now: u64) -> bool {
        self.runnables.len() == 0 && self.timers.filter(is_due(now)).len() == 0
    }
}

/// The scheduler's queues.
pub struct PluginDispatcher {
    runnables: VecDeque<u64>,
    timers: Vec<Timer>,
}

impl View for PluginDispatcher {
    type V = DispatcherModel;

    closed spec fn view(&self) -> DispatcherModel {
        DispatcherModel { runnables: self.runnables@, timers: self.timers@ }
    }
}

impl PluginDispatcher {
    /// A scheduler without work.
    pub fn new() -> (dispatcher: PluginDispatcher)
        ensures
            dispatcher@ == (DispatcherModel { runnables: Seq::empty(), timers: Seq::empty() }),
    {
        PluginDispatcher { runnables: VecDeque::new(), timers: Vec::new() }
    }

    /// Queue a runnable behind the ones that wait.
    pub fn dispatch(&mut self, runnable: u64)
        ensures
            final(self)@ == (DispatcherModel {
                runnables: old(self)@.runnables.push(runnable),
                ..old(self)@
            }),
    {
        self.runnables.push_back(runnable);
    }

    /// Set a runnable to run once `duration` has passed.
    pub fn dispatch_after(&mut self, now: u64, duration: u64, runnable: u64)
        requires
            now + duration <= u64::MAX,
        ensures
            final(self)@ == (DispatcherModel {
                timers: old(self)@.timers.push(
                    Timer { deadline: (now + duration) as u64, runnable },
                ),
                ..old(self)@
            }),
    {
        self.timers.push(Timer { deadline: now + duration, runnable });
    }

    /// Take what is to be run in the pass at `now`. Runnables and timers may enqueue
    /// further work, so a turn makes passes until one has nothing to run.
    pub fn run_until_idle(&mut self, now: u64) -> (pass: Pass)
        ensures
            pass.due_timers@ == timed_runnables(old(self)@.timers.filter(is_due(now))),
            pass.runnable == (if old(self)@.runnables.len() > 0 {
                Some(old(self)@.runnables[0])
            } else {
                None
            }),
            final(self)@ == old(self)@.after_pass(now),
            (pass.due_timers@.len() == 0 && pass.runnable is None) == old(self)@.idle(now),
    {
        let mut due: Vec<u64> = Vec::new();
        let mut pending: Vec<Timer> = Vec::new();
        let ghost waiting = self.timers@;
        let mut i: usize = 0;
        assert(due@ =~= timed_runnables(waiting.take(0).filter(is_due(now))));
        assert(pending@ =~= waiting.take(0).filter(is_pending(now)));
        while i < self.timers.len()
            invariant
                i <= self.timers.len(),
                self.timers@ == waiting,
                self.runnables@ == old(self).runnables@,
                due@ == timed_runnables(waiting.take(i as int).filter(is_due(now))),
                pending@ == waiting.take(i as int).filter(is_pending(now)),
            decreases self.timers.len() - i,
        {
            let timer = self.timers[i];
            proof {
                assert(waiting.take(i as int + 1) =~= waiting.take(i as int).push(timer));
                waiting.take(i as int).lemma_filter_push(timer, is_due(now));
                waiting.take(i as int).lemma_filter_push(timer, is_pending(now));
            }
            if timer.deadline <= now {
                due.push(timer.runnable);
            } else {
                pending.push(timer);
            }
            assert(due@ =~= timed_runnables(waiting.take(i as int + 1).filter(is_due(now))));
            i += 1;
        }
        assert(waiting.take(i as int) =~= waiting);
        self.timers = pending;
        let runnable = self.runnables.pop_front();
        assert(self@ =~= old(self)@.after_pass(now));
        Pass { due_timers: due, runnable }
    }

    /// The delay until the earliest pending timer, so the caller can schedule the next
    /// wakeup.
    pub fn next_timer_delay(&self, now: u64) -> (delay: Option<u64>)
        ensures
            match delay {
                Some(delay) => is_earliest(self@.timers, now, delay),
                None => self@.timers.len() == 0,
            },
    {
        if self.timers.len() == 0 {
            return None;
        }
        let mut least: u64 = self.delay_of(0, now);
        let mut i: usize = 1;
        assert(remaining(self@.timers[0], now) == least);
        while i < self.timers.len()
            invariant
                1 <= i <= self.timers.len(),
                self@.timers == self.timers@,
                exists|j: int|
                    0 <= j < i && remaining(#[trigger] self@.timers[j], now) == least,
                forall|j: int| 0 <= j < i ==> least <= remaining(#[trigger] self@.timers[j], now),
            decreases self.timers.len() - i,
        {
            let delay: u64 = self.delay_of(i, now);
            if delay < least {
                least = delay;
            }
            i += 1;
        }
        Some(least)
    }

    fn delay_of(&self, index: usize, now: u64) -> (delay: u64)
        requires
            index < self.timers@.len(),
        ensures
            delay == remaining(self@.timers[index as int], now),
    {
        let timer = self.timers[index];
        if timer.deadline <= now {
            0
        } else {
            timer.deadline - now
        }
    }
}

/// The wakeup a turn reports: the delay in whole milliseconds, as far as 32 bits go.
pub fn wake_after_ms(delay: Option<u64>) -> (wake: Option<u32>)
    ensures
        wake == (match delay {
            Some(delay) => Some(whole_millis(delay)),
            None => None,
        }),
{
    match delay {
        Some(delay) => {
            let millis: u64 = delay / 1_000_000;
            if millis <= u32::MAX as u64 {
                Some(millis as u32)
            } else {
                Some(u32::MAX)
            }
        },
        None => None,
    }
}

/// A pass runs each timer that is due and leaves each one that is not: none is lost and
/// none is run twice.
pub proof fn timers_are_run_or_kept(timers: Seq<Timer>, now: u64)
    ensures
        timers.filter(is_due(now)).len() + timers.filter(is_pending(now)).len() == timers.len(),
        timers.filter(is_due(now)).to_multiset().add(timers.filter(is_pending(now)).to_multiset())
            =~= timers.to_multiset(),
    decreases timers.len(),
{
    broadcast use vstd::seq_lib::group_to_multiset_ensures;

    reveal(Seq::filter);
    if timers.len() > 0 {
        let rest = timers.drop_last();
        let last = timers.last();
        timers_are_run_or_kept(rest, now);
        assert(rest.push(last) =~= timers);
        assert(timers.to_multiset() =~= rest.to_multiset().insert(last));
        rest.lemma_filter_push(last, is_due(now));
        rest.lemma_filter_push(last, is_pending(now));
    } else {
        assert(timers.filter(is_due(now)) =~= timers);
        assert(timers.filter(is_pending(now)) =~= timers);
    }
}

/// After a pass no timer is due any more, so a turn that has run everything waits for the
/// earliest timer only.
pub proof fn passes_leave_no_timer_due(state: DispatcherModel, now: u64)
    ensures
        state.after_pass(now).timers.filter(is_due(now)).len() == 0,
    decreases state.timers.len(),
{
    reveal(Seq::filter);
    if state.timers.len() > 0 {
        let rest = DispatcherModel { timers: state.timers.drop_last(), ..state };
        passes_leave_no_timer_due(rest, now);
        assert(state.timers.drop_last().push(state.timers.last()) =~= state.timers);
        state.timers.drop_last().lemma_filter_push(state.timers.last(), is_pending(now));
        if state.timers.last().deadline > now {
            rest.after_pass(now).timers.lemma_filter_push(state.timers.last(), is_due(now));
        }
    }
}

/// One thing that happens to the scheduler.
#[verifier::ext_equal]
pub enum DispatcherEvent {
    /// A runnable was queued.
    Queued(u64),
    /// A timer was set.
    Timed(Timer),
    /// A pass was made at this time.
    Passed(u64),
}

/// What waits after some events.
pub open spec fn waiting_after(events: Seq<DispatcherEvent>) -> DispatcherModel
    decreases events.len(),
{
    if events.len() == 0 {
        DispatcherModel { runnables: Seq::empty(), timers: Seq::empty() }
    } else {
        let before = waiting_after(events.drop_last());
        match events.last() {
            DispatcherEvent::Queued(runnable) => DispatcherModel {
                runnables: before.runnables.push(runnable),
                ..before
            },
            DispatcherEvent::Timed(timer) => DispatcherModel {
                timers: before.timers.push(timer),
                ..before
            },
            DispatcherEvent::Passed(now) => before.after_pass(now),
        }
    }
}

/// The runnables that were queued in these events, in order.
pub open spec fn runnables_queued(events: Seq<DispatcherEvent>) -> Seq<u64>
    decreases events.len(),
{
    if events.len() == 0 {
        Seq::empty()
    } else {
        let before = runnables_queued(events.drop_last());
        match events.last() {
            DispatcherEvent::Queued(runnable) => before.push(runnable),
            _ => before,
        }
    }
}

/// The queued runnables that the passes among these events ran, in order.
pub open spec fn runnables_run(events: Seq<DispatcherEvent>) -> Seq<u64>
    decreases events.len(),
{
    if events.len() == 0 {
        Seq::empty()
    } else {
        let before = waiting_after(events.drop_last());
        let run = runnables_run(events.drop_last());
        if events.last() is Passed && before.runnables.len() > 0 {
            run.push(before.runnables[0])
        } else {
            run
        }
    }
}

/// The timers that were set in these events.
pub open spec fn timers_set(events: Seq<DispatcherEvent>) -> Multiset<Timer>
    decreases events.len(),
{
    if events.len() == 0 {
        Multiset::empty()
    } else {
        let before = timers_set(events.drop_last());
        match events.last() {
            DispatcherEvent::Timed(timer) => before.insert(timer),
            _ => before,
        }
    }
}

/// The timers that the passes among these events ran.
pub open spec fn timers_run(events: Seq<DispatcherEvent>) -> Multiset<Timer>
    decreases events.len(),
{
    if events.len() == 0 {
        Multiset::empty()
    } else {
        let before = waiting_after(events.drop_last());
        let run = timers_run(events.drop_last());
        match events.last() {
            DispatcherEvent::Passed(now) => run.add(before.timers.filter(is_due(now)).to_multiset()),
            _ => run,
        }
    }
}

/// However work and passes alternate, passes run every queued runnable once, in the order
/// they were queued, and every timer once: what ran, followed by what waits, is what was
/// asked for.
pub proof fn passes_run_everything_once(events: Seq<DispatcherEvent>)
    ensures
        runnables_run(events) + waiting_after(events).runnables == runnables_queued(events),
        timers_run(events).add(waiting_after(events).timers.to_multiset()) =~= timers_set(events),
    decreases events.len(),
{
    broadcast use vstd::seq_lib::group_to_multiset_ensures;

    if events.len() > 0 {
        let before = waiting_after(events.drop_last());
        let run = runnables_run(events.drop_last());
        passes_run_everything_once(events.drop_last());
        match events.last() {
            DispatcherEvent::Queued(runnable) => {
                assert((run + before.runnables).push(runnable) =~= run + before.runnables.push(
                    runnable,
                ));
            },
            DispatcherEvent::Timed(timer) => {
                assert(before.timers.push(timer).to_multiset() =~= before.timers.to_multiset().insert(
                    timer,
                ));
            },
            DispatcherEvent::Passed(now) => {
                timers_are_run_or_kept(before.timers, now);
                if before.runnables.len() > 0 {
                    assert(run.push(before.runnables[0]) + before.runnables.drop_first() =~= run
                        + before.runnables);
                }
            },
        }
    }
    assert(runnables_run(events) + waiting_after(events).runnables =~= runnables_queued(events));
}

impl DispatcherModel {
    /// What waits after passes were made at these times.
    pub open spec fn after_passes(self, times: Seq<u64>) -> DispatcherModel
        decreases times.len(),
    {
        if times.len() == 0 {
            self
        } else {
            self.after_passes(times.drop_last()).after_pass(times.last())
        }
    }
}

/// Passes come to an end: where nothing more is enqueued, as many as there are runnables
/// (and one at least) leave nothing queued and nothing due, so the next one is the last.
pub proof fn passes_become_idle(state: DispatcherModel, times: Seq<u64>)
    requires
        times.len() > 0,
        times.len() >= state.runnables.len(),
    ensures
        state.after_passes(times).idle(times.last()),
{
    lemma_passes_take_runnables(state, times);
    passes_leave_no_timer_due(state.after_passes(times.drop_last()), times.last());
}

proof fn lemma_passes_take_runnables(state: DispatcherModel, times: Seq<u64>)
    ensures
        state.after_passes(times).runnables.len() == (if times.len() < state.runnables.len() {
            state.runnables.len() - times.len()
        } else {
            0
        }),
    decreases times.len(),
{
    if times.len() > 0 {
        lemma_passes_take_runnables(state, times.drop_last());
    }
}

/// A pass that had nothing to run changes nothing, and is the sign that a turn may end:
/// nothing is queued, and no timer is due.
pub proof fn idle_passes_change_nothing(state: DispatcherModel, now: u64)
    requires
        state.idle(now),
    ensures
        state.after_pass(now) == state,
{
    lemma_pending_stay(state.timers, now);
}

proof fn lemma_pending_stay(timers: Seq<Timer>, now: u64)
    requires
        timers.filter(is_due(now)).len() == 0,
    ensures
        timers.filter(is_pending(now)) == timers,
    decreases timers.len(),
{
    reveal(Seq::filter);
    if timers.len() > 0 {
        let rest = timers.drop_last();
        assert(rest.push(timers.last()) =~= timers);
        rest.lemma_filter_push(timers.last(), is_due(now));
        rest.lemma_filter_push(timers.last(), is_pending(now));
        lemma_pending_stay(rest, now);
    } else {
        assert(timers.filter(is_pending(now)) =~= timers);
    }
}

/// A pass runs a timer once its time has come, to the nanosecond, and no sooner; the timers it
/// runs are the ones set for that time or before, in the order they were set, and the ones it
/// keeps are all others.
pub proof fn timers_run_when_their_time_has_come(state: DispatcherModel, now: u64, i: int)
    ensures
        state.timers.filter(is_due(now)) == state.timers.filter(
            |timer: Timer| timer.deadline <= now,
        ),
        state.after_pass(now).timers == state.timers.filter(|timer: Timer| now < timer.deadline),
        0 <= i < state.timers.len() ==> {
            let timer = state.timers[i];
            &&& timer.deadline <= now ==> state.timers.filter(is_due(now)).contains(timer)
                && timed_runnables(state.timers.filter(is_due(now))).contains(timer.runnable)
            &&& timer.deadline > now ==> state.after_pass(now).timers.contains(timer)
        },
        state.runnables.len() > 0 ==> state.after_pass(now).runnables == state.runnables.skip(1),
        state.idle(now) ==> state.runnables.len() == 0 && !(0 <= i < state.timers.len()
            && state.timers[i].deadline <= now),
{
    assert(is_due(now) =~= (|timer: Timer| timer.deadline <= now));
    assert(is_pending(now) =~= (|timer: Timer| now < timer.deadline));
    if 0 <= i < state.timers.len() {
        let timer = state.timers[i];
        if timer.deadline <= now {
            let place = crate::sequences::lemma_accepted_are_kept(state.timers, is_due(now), i);
            assert(state.timers.filter(is_due(now))[place] == timer);
            assert(timed_runnables(state.timers.filter(is_due(now)))[place] == timer.runnable);
        } else {
            let place = crate::sequences::lemma_accepted_are_kept(state.timers, is_pending(now), i);
            assert(state.timers.filter(is_pending(now))[place] == timer);
        }
    }
    if state.runnables.len() > 0 {
        assert(state.after_pass(now).runnables =~= state.runnables.skip(1));
    }
}

/// The next wakeup is at the earliest timer: some timer's time has come then, and no timer's
/// before. It is never told late: in whole milliseconds it is that delay, cut down by less than
/// one, as far as 32 bits go.
pub proof fn wakeups_are_at_the_earliest_timer(timers: Seq<Timer>, now: u64, delay: u64, i: int)
    requires
        is_earliest(timers, now, delay),
    ensures
        exists|j: int|
            0 <= j < timers.len() && (#[trigger] timers[j]).deadline <= now + delay && (delay > 0
                ==> timers[j].deadline == now + delay),
        0 <= i < timers.len() && delay > 0 ==> timers[i].deadline >= now + delay,
        delay < 4_294_967_296_000_000 ==> whole_millis(delay) * 1_000_000 <= delay < (whole_millis(
            delay,
        ) + 1) * 1_000_000,
        delay >= 4_294_967_296_000_000 ==> whole_millis(delay) == 4_294_967_295u32,
{
    let j = choose|j: int| 0 <= j < timers.len() && remaining(#[trigger] timers[j], now) == delay;
    assert(timers[j].deadline <= now + delay);
    if 0 <= i < timers.len() {
        assert(delay <= remaining(timers[i], now));
    }
}

} // verus!
