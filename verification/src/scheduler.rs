//! Periodic plugin scheduling with drift correction and cooperative shutdown.
//!
//! A dedicated thread ticks the plugin at a fixed interval.  After every tick
//! the next deadline is advanced by one interval; when the deadline has
//! already passed (for instance after the operating system was suspended) the
//! schedule is reset to "now" instead of replaying the missed ticks, so a
//! clock jump produces at most one immediate tick.
//!
//! The thread itself, its sleeping and the sandboxed update call live outside
//! this crate; they drive the state machine below and obey its contracts.
//! Time is a reading of a monotonic clock, in milliseconds.

use vstd::prelude::*;

verus! {

/// The deadline the loop wakes up at after a tick that began at `wake` and
/// whose completion was observed at `completion`: one interval after the
/// previous wake-up, unless that moment has already passed, in which case the
/// schedule restarts at the observed time.
pub open spec fn next_wake_time(wake: int, interval: int, completion: int) -> int {
    if wake + interval >= completion {
        wake + interval
    } else {
        completion
    }
}

/// The wake-up times of a run of the loop that starts ticking at `start`,
/// where `delays[k]` is the time that elapsed between the `k`-th wake-up and
/// the moment the loop got to advance the schedule again (plugin execution
/// plus any clock jump slept through).
pub open spec fn wake_times(start: int, interval: int, delays: Seq<int>) -> Seq<int>
    decreases delays.len(),
{
    if delays.len() == 0 {
        seq![start]
    } else {
        let prev = wake_times(start, interval, delays.drop_last());
        prev.push(next_wake_time(prev.last(), interval, prev.last() + delays.last()))
    }
}

pub proof fn lemma_wake_times_len(start: int, interval: int, delays: Seq<int>)
    ensures
        wake_times(start, interval, delays).len() == delays.len() + 1,
    decreases delays.len(),
{
    if delays.len() > 0 {
        lemma_wake_times_len(start, interval, delays.drop_last());
    }
}

/// Navigation: each wake-up time is obtained from the previous one by one
/// schedule advance.
pub proof fn lemma_wake_times_step(start: int, interval: int, delays: Seq<int>, k: int)
    requires
        0 <= k < delays.len(),
    ensures
        wake_times(start, interval, delays).len() == delays.len() + 1,
        wake_times(start, interval, delays)[k + 1] == next_wake_time(
            wake_times(start, interval, delays)[k],
            interval,
            wake_times(start, interval, delays)[k] + delays[k],
        ),
    decreases delays.len(),
{
    lemma_wake_times_len(start, interval, delays);
    let prev = wake_times(start, interval, delays.drop_last());
    lemma_wake_times_len(start, interval, delays.drop_last());
    if k == delays.len() - 1 {
        assert(prev.last() == prev[k]);
    } else {
        lemma_wake_times_step(start, interval, delays.drop_last(), k);
        assert(delays.drop_last()[k] == delays[k]);
    }
}

/// Law: as long as the loop advances the schedule no later than one interval
/// after each wake-up (it never misses a deadline), consecutive tick
/// timestamps are spaced by exactly the interval.
pub proof fn lemma_on_time_ticks_evenly_spaced(
    start: int,
    interval: int,
    delays: Seq<int>,
    k: int,
)
    requires
        interval >= 1,
        0 <= k < delays.len(),
        0 <= delays[k] <= interval,
    ensures
        wake_times(start, interval, delays).len() == delays.len() + 1,
        wake_times(start, interval, delays)[k + 1] == wake_times(start, interval, delays)[k]
            + interval,
{
    lemma_wake_times_step(start, interval, delays, k);
}

/// Law: when a deadline was missed by more than the interval (a clock jump,
/// e.g. a system suspend), the next tick fires immediately at the observed
/// time — a single tick, no catch-up burst — and as soon as the loop is on
/// time again the ticks resume their spacing of one interval.
pub proof fn lemma_clock_jump_single_immediate_tick(
    start: int,
    interval: int,
    delays: Seq<int>,
    k: int,
)
    requires
        interval >= 1,
        0 <= k < delays.len(),
        delays[k] > interval,
        k + 1 < delays.len() ==> 0 <= delays[k + 1] <= interval,
    ensures
        wake_times(start, interval, delays).len() == delays.len() + 1,
        wake_times(start, interval, delays)[k + 1] == wake_times(start, interval, delays)[k]
            + delays[k],
        k + 1 < delays.len() ==> wake_times(start, interval, delays)[k + 2] == wake_times(
            start,
            interval,
            delays,
        )[k + 1] + interval,
{
    lemma_wake_times_step(start, interval, delays, k);
    if k + 1 < delays.len() {
        lemma_wake_times_step(start, interval, delays, k + 1);
    }
}

/// A monotonic deadline plus a fixed tick interval.  The deadline is always
/// either in the future or reset to "now"; it never falls arbitrarily far
/// behind the clock.
pub struct TickSchedule {
    pub next_tick: u64,
    pub interval: u64,
}

impl TickSchedule {
    pub open spec fn wf(self) -> bool {
        self.interval >= 1
    }

    pub fn new(now: u64, interval: u64) -> (s: Self)
        requires
            interval >= 1,
        ensures
            s.next_tick == now,
            s.interval == interval,
            s.wf(),
    {
        TickSchedule { next_tick: now, interval }
    }

    /// One drift-correcting advance, performed right after the tick that woke
    /// at `self.next_tick`; `now` is the completion time the loop observes.
    /// Returns how long the loop must sleep before the next tick.
    pub fn advance(&mut self, now: u64) -> (sleep: u64)
        requires
            old(self).wf(),
            now >= old(self).next_tick,
            old(self).next_tick + old(self).interval <= u64::MAX,
        ensures
            final(self).interval == old(self).interval,
            final(self).wf(),
            final(self).next_tick == next_wake_time(
                old(self).next_tick as int,
                old(self).interval as int,
                now as int,
            ),
            final(self).next_tick >= now,
            sleep == final(self).next_tick - now,
            sleep <= old(self).interval,
    {
        let target = self.next_tick + self.interval;
        if target >= now {
            self.next_tick = target;
            target - now
        } else {
            self.next_tick = now;
            0
        }
    }
}

#[derive(Clone, Copy, PartialEq, Eq, Structural, Debug)]
pub enum SchedulerPhase {
    Idle,
    Running,
    Interrupted,
    Stopped,
}

/// What the scheduler thread must do next after checking in at the top of its
/// loop: run one plugin update, or exit.
#[derive(Clone, Copy, PartialEq, Eq, Structural, Debug)]
pub enum TickDecision {
    RunUpdate,
    Exit,
}

/// The state of one plugin's scheduling loop.  The owning thread calls `poll`
/// at the top of every iteration and `after_update` once the update call has
/// returned; any other thread may call `interrupt` to request a cooperative
/// shutdown.
pub struct PluginScheduler {
    pub phase: SchedulerPhase,
    pub schedule: TickSchedule,
    pub interrupt_requested: bool,
}

pub open spec fn spec_interrupt(s: PluginScheduler) -> PluginScheduler {
    PluginScheduler {
        phase: if s.phase is Running {
            SchedulerPhase::Interrupted
        } else {
            s.phase
        },
        schedule: s.schedule,
        interrupt_requested: true,
    }
}

pub open spec fn spec_poll(s: PluginScheduler) -> (PluginScheduler, TickDecision) {
    if s.interrupt_requested {
        (
            PluginScheduler {
                phase: SchedulerPhase::Stopped,
                schedule: s.schedule,
                interrupt_requested: true,
            },
            TickDecision::Exit,
        )
    } else {
        (s, TickDecision::RunUpdate)
    }
}

pub open spec fn spec_after_update(s: PluginScheduler, completion: int) -> PluginScheduler {
    PluginScheduler {
        phase: s.phase,
        schedule: TickSchedule {
            next_tick: next_wake_time(
                s.schedule.next_tick as int,
                s.schedule.interval as int,
                completion,
            ) as u64,
            interval: s.schedule.interval,
        },
        interrupt_requested: s.interrupt_requested,
    }
}

impl PluginScheduler {
    pub open spec fn wf(self) -> bool {
        self.schedule.wf()
    }

    /// A freshly started scheduler: the thread has been spawned, the first
    /// tick is due immediately.
    pub fn start(now: u64, interval: u64) -> (s: Self)
        requires
            interval >= 1,
        ensures
            s.phase == SchedulerPhase::Running,
            s.schedule.next_tick == now,
            s.schedule.interval == interval,
            !s.interrupt_requested,
            s.wf(),
    {
        PluginScheduler {
            phase: SchedulerPhase::Running,
            schedule: TickSchedule::new(now, interval),
            interrupt_requested: false,
        }
    }

    /// Request a cooperative shutdown.  The flag is observed at the top of
    /// the next loop iteration; the running thread is never torn down by
    /// force.
    pub fn interrupt(&mut self)
        ensures
            *final(self) == spec_interrupt(*old(self)),
    {
        self.interrupt_requested = true;
        if matches!(self.phase, SchedulerPhase::Running) {
            self.phase = SchedulerPhase::Interrupted;
        }
    }

    /// The check at the top of each loop iteration: either the thread runs
    /// one more update, or it observes the interrupt request, transitions to
    /// `Stopped` and exits.
    pub fn poll(&mut self) -> (d: TickDecision)
        ensures
            *final(self) == spec_poll(*old(self)).0,
            d == spec_poll(*old(self)).1,
            d == TickDecision::Exit <==> old(self).interrupt_requested,
            old(self).interrupt_requested ==> final(self).phase == SchedulerPhase::Stopped,
    {
        if self.interrupt_requested {
            self.phase = SchedulerPhase::Stopped;
            TickDecision::Exit
        } else {
            TickDecision::RunUpdate
        }
    }

    /// Advance the schedule after an update call has returned; `now` is the
    /// observed completion time.  Returns how long the thread must sleep
    /// before it polls again.
    pub fn after_update(&mut self, now: u64) -> (sleep: u64)
        requires
            old(self).wf(),
            now >= old(self).schedule.next_tick,
            old(self).schedule.next_tick + old(self).schedule.interval <= u64::MAX,
        ensures
            *final(self) == spec_after_update(*old(self), now as int),
            final(self).wf(),
            sleep == final(self).schedule.next_tick - now,
            sleep <= old(self).schedule.interval,
    {
        self.schedule.advance(now)
    }
}

/// One event in the life of a scheduling loop, as seen by the state machine.
pub enum SchedulerEvent {
    Interrupt,
    Poll,
    AfterUpdate { completion: u64 },
}

/// Whether this event, fired in this state, dispatches a plugin update.
pub open spec fn dispatches_update(s: PluginScheduler, e: SchedulerEvent) -> bool {
    e is Poll && !s.interrupt_requested
}

pub open spec fn spec_step(s: PluginScheduler, e: SchedulerEvent) -> PluginScheduler {
    match e {
        SchedulerEvent::Interrupt => spec_interrupt(s),
        SchedulerEvent::Poll => spec_poll(s).0,
        SchedulerEvent::AfterUpdate { completion } => spec_after_update(s, completion as int),
    }
}

pub open spec fn run_steps(s: PluginScheduler, es: Seq<SchedulerEvent>) -> PluginScheduler
    decreases es.len(),
{
    if es.len() == 0 {
        s
    } else {
        spec_step(run_steps(s, es.drop_last()), es.last())
    }
}

pub proof fn lemma_steps_keep_interrupt(s: PluginScheduler, es: Seq<SchedulerEvent>)
    requires
        s.interrupt_requested,
    ensures
        run_steps(s, es).interrupt_requested,
    decreases es.len(),
{
    if es.len() > 0 {
        lemma_steps_keep_interrupt(s, es.drop_last());
    }
}

/// Law: after `interrupt` has been called on a running scheduler, no later
/// event dispatches a plugin update, and the first poll that follows moves
/// the thread to `Stopped`.
pub proof fn lemma_interrupt_stops_updates(s: PluginScheduler, es: Seq<SchedulerEvent>, k: int)
    requires
        s.interrupt_requested,
        0 <= k < es.len(),
    ensures
        !dispatches_update(run_steps(s, es.take(k)), es[k]),
        es[k] is Poll ==> run_steps(s, es.take(k + 1)).phase == SchedulerPhase::Stopped,
{
    lemma_steps_keep_interrupt(s, es.take(k));
    assert(es.take(k + 1).drop_last() =~= es.take(k));
    assert(es.take(k + 1).last() == es[k]);
}

/// Law: provided each update call returns within one interval of its
/// wake-up, an interrupt requested at time `t` during a loop cycle is
/// observed by the poll at the next wake-up, which happens no later than two
/// intervals after the request.
pub proof fn lemma_interrupt_observed_within_two_intervals(
    wake: int,
    interval: int,
    completion: int,
    t: int,
)
    requires
        interval >= 1,
        wake <= completion <= wake + interval,
        wake <= t <= next_wake_time(wake, interval, completion),
    ensures
        next_wake_time(wake, interval, completion) <= t + 2 * interval,
{
}

} // verus!
