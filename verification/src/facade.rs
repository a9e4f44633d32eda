//! The capability surface a sandboxed plugin is given over the shared timer.
//!
//! [`TimerBox`] is the only channel through which a plugin may affect the
//! timer.  Each method is one brief critical section: the host keeps the box
//! behind the shared timer's write lock and never holds that lock across a
//! sleep or across a whole tick.  The facade validates nothing and reports
//! nothing back — every call succeeds silently, exactly like the underlying
//! timer operation it forwards to.

use vstd::prelude::*;

use crate::timer::{upsert_var, TimerModel, TimerPhase};

verus! {

/// One call a plugin can issue during a tick.
pub enum TimerCall {
    Start,
    Split,
    SkipSplit,
    UndoSplit,
    Reset,
    SetGameTime(u64),
    PauseGameTime,
    ResumeGameTime,
    SetVariable(String, String),
}

/// How a single call, issued directly against the timer, relates the timer
/// state before to the state after.
pub open spec fn spec_apply_call(t: TimerModel, c: TimerCall, r: TimerModel) -> bool {
    match c {
        TimerCall::Start => r == t.spec_start(),
        TimerCall::Split => r == t.spec_split(),
        TimerCall::SkipSplit => r == t.spec_skip_split(),
        TimerCall::UndoSplit => r == t.spec_undo_split(),
        TimerCall::Reset => r == t.spec_reset(),
        TimerCall::SetGameTime(bits) => r == t.spec_set_game_time(bits),
        TimerCall::PauseGameTime => r == t.spec_pause_game_time(),
        TimerCall::ResumeGameTime => r == t.spec_resume_game_time(),
        TimerCall::SetVariable(key, value) => {
            &&& r.variables@ == upsert_var(t.variables@, key, value)
            &&& r.phase == t.phase
            &&& r.segment_count == t.segment_count
            &&& r.current_split_index == t.current_split_index
            &&& r.timing_method == t.timing_method
            &&& r.game_time_paused == t.game_time_paused
            &&& r.game_time_bits == t.game_time_bits
        },
    }
}

impl TimerModel {
    /// Issue one call directly against the timer.
    pub fn apply_call(&mut self, c: &TimerCall)
        requires
            old(self).wf(),
        ensures
            spec_apply_call(*old(self), *c, *final(self)),
            final(self).wf(),
    {
        match c {
            TimerCall::Start => self.start(),
            TimerCall::Split => self.split(),
            TimerCall::SkipSplit => self.skip_split(),
            TimerCall::UndoSplit => self.undo_split(),
            TimerCall::Reset => self.reset(),
            TimerCall::SetGameTime(bits) => self.set_game_time(*bits),
            TimerCall::PauseGameTime => self.pause_game_time(),
            TimerCall::ResumeGameTime => self.resume_game_time(),
            TimerCall::SetVariable(key, value) => self.set_variable(key, value.clone()),
        }
    }
}

/// The facade handed to the plugin: it owns the locked timer for the
/// duration of one call and forwards each operation unchanged.
pub struct TimerBox {
    pub timer: TimerModel,
}

impl TimerBox {
    pub open spec fn wf(self) -> bool {
        self.timer.wf()
    }

    pub fn new(timer: TimerModel) -> (b: Self)
        ensures
            b.timer == timer,
    {
        TimerBox { timer }
    }

    /// Read-only snapshot of the current phase.
    pub fn state(&self) -> (p: TimerPhase)
        ensures
            p == self.timer.phase,
    {
        self.timer.phase
    }

    pub fn start(&mut self)
        requires
            old(self).wf(),
        ensures
            final(self).timer == old(self).timer.spec_start(),
            final(self).wf(),
    {
        self.timer.start();
    }

    pub fn split(&mut self)
        requires
            old(self).wf(),
        ensures
            final(self).timer == old(self).timer.spec_split(),
            final(self).wf(),
    {
        self.timer.split();
    }

    pub fn skip_split(&mut self)
        requires
            old(self).wf(),
        ensures
            final(self).timer == old(self).timer.spec_skip_split(),
            final(self).wf(),
    {
        self.timer.skip_split();
    }

    pub fn undo_split(&mut self)
        requires
            old(self).wf(),
        ensures
            final(self).timer == old(self).timer.spec_undo_split(),
            final(self).wf(),
    {
        self.timer.undo_split();
    }

    /// Always a full reset: comparison-affecting state is discarded.
    pub fn reset(&mut self)
        requires
            old(self).wf(),
        ensures
            final(self).timer == old(self).timer.spec_reset(),
            final(self).wf(),
    {
        self.timer.reset();
    }

    /// `bits` is the bit pattern of a binary64 seconds value, carried
    /// opaquely.
    pub fn set_game_time(&mut self, bits: u64)
        requires
            old(self).wf(),
        ensures
            final(self).timer == old(self).timer.spec_set_game_time(bits),
            final(self).wf(),
    {
        self.timer.set_game_time(bits);
    }

    pub fn pause_game_time(&mut self)
        requires
            old(self).wf(),
        ensures
            final(self).timer == old(self).timer.spec_pause_game_time(),
            final(self).wf(),
    {
        self.timer.pause_game_time();
    }

    pub fn resume_game_time(&mut self)
        requires
            old(self).wf(),
        ensures
            final(self).timer == old(self).timer.spec_resume_game_time(),
            final(self).wf(),
    {
        self.timer.resume_game_time();
    }

    /// Upsert a custom variable; an empty key is passed through silently.
    pub fn set_variable(&mut self, key: &String, value: String)
        requires
            old(self).wf(),
        ensures
            final(self).timer.variables@ == upsert_var(old(self).timer.variables@, *key, value),
            final(self).timer.phase == old(self).timer.phase,
            final(self).timer.segment_count == old(self).timer.segment_count,
            final(self).timer.current_split_index == old(self).timer.current_split_index,
            final(self).timer.timing_method == old(self).timer.timing_method,
            final(self).timer.game_time_paused == old(self).timer.game_time_paused,
            final(self).timer.game_time_bits == old(self).timer.game_time_bits,
            final(self).wf(),
    {
        self.timer.set_variable(key, value);
    }

    /// Dispatch one plugin call through the facade.  The contract is the
    /// same relation as issuing the call directly against the timer.
    pub fn handle_call(&mut self, c: &TimerCall)
        requires
            old(self).wf(),
        ensures
            spec_apply_call(old(self).timer, *c, final(self).timer),
            final(self).wf(),
    {
        match c {
            TimerCall::Start => self.start(),
            TimerCall::Split => self.split(),
            TimerCall::SkipSplit => self.skip_split(),
            TimerCall::UndoSplit => self.undo_split(),
            TimerCall::Reset => self.reset(),
            TimerCall::SetGameTime(bits) => self.set_game_time(*bits),
            TimerCall::PauseGameTime => self.pause_game_time(),
            TimerCall::ResumeGameTime => self.resume_game_time(),
            TimerCall::SetVariable(key, value) => self.set_variable(key, value.clone()),
        }
    }
}

/// The part of the timer a call sequence's phase transitions depend on.
pub struct TimerControl {
    pub phase: TimerPhase,
    pub segment_count: nat,
    pub current_split_index: Option<nat>,
}

pub open spec fn control_of(t: TimerModel) -> TimerControl {
    TimerControl {
        phase: t.phase,
        segment_count: t.segment_count as nat,
        current_split_index: match t.current_split_index {
            Some(i) => Some(i as nat),
            None => None,
        },
    }
}

/// The timer's own phase-machine transition for one call.
pub open spec fn step_control(c: TimerControl, call: TimerCall) -> TimerControl {
    match call {
        TimerCall::Start => if c.phase is NotRunning {
            TimerControl { phase: TimerPhase::Running, current_split_index: Some(0nat), ..c }
        } else {
            c
        },
        TimerCall::Split => if c.phase is Running {
            match c.current_split_index {
                Some(i) => if i + 1 == c.segment_count {
                    TimerControl {
                        phase: TimerPhase::Ended,
                        current_split_index: None::<nat>,
                        ..c
                    }
                } else {
                    TimerControl { current_split_index: Some((i + 1) as nat), ..c }
                },
                None => c,
            }
        } else {
            c
        },
        TimerCall::SkipSplit => if c.phase is Running || c.phase is Paused {
            match c.current_split_index {
                Some(i) => if i + 1 < c.segment_count {
                    TimerControl { current_split_index: Some((i + 1) as nat), ..c }
                } else {
                    c
                },
                None => c,
            }
        } else {
            c
        },
        TimerCall::UndoSplit => if c.phase is Ended {
            TimerControl {
                phase: TimerPhase::Running,
                current_split_index: Some((c.segment_count - 1) as nat),
                ..c
            }
        } else if c.phase is Running || c.phase is Paused {
            match c.current_split_index {
                Some(i) => if i > 0 {
                    TimerControl { current_split_index: Some((i - 1) as nat), ..c }
                } else {
                    c
                },
                None => c,
            }
        } else {
            c
        },
        TimerCall::Reset => if c.phase is NotRunning {
            c
        } else {
            TimerControl { phase: TimerPhase::NotRunning, current_split_index: None::<nat>, ..c }
        },
        TimerCall::SetGameTime(_) => c,
        TimerCall::PauseGameTime => c,
        TimerCall::ResumeGameTime => c,
        TimerCall::SetVariable(_, _) => c,
    }
}

pub open spec fn run_control(c: TimerControl, calls: Seq<TimerCall>) -> TimerControl
    decreases calls.len(),
{
    if calls.len() == 0 {
        c
    } else {
        step_control(run_control(c, calls.drop_last()), calls.last())
    }
}

/// A call admitted by `spec_apply_call` keeps the timer well-formed.
pub proof fn lemma_call_preserves_wf(t: TimerModel, c: TimerCall, r: TimerModel)
    requires
        t.wf(),
        spec_apply_call(t, c, r),
    ensures
        r.wf(),
{
}

/// Any state change permitted by `spec_apply_call` moves the phase machine by
/// exactly the timer's own transition: a call has the same phase effect no
/// matter which channel issued it.
pub proof fn lemma_call_determines_control(t: TimerModel, c: TimerCall, r: TimerModel)
    requires
        t.wf(),
        spec_apply_call(t, c, r),
    ensures
        control_of(r) == step_control(control_of(t), c),
{
}

/// An execution trace: `results[k]` is the timer after the first `k + 1`
/// calls, each step admitted by `spec_apply_call` — which is exactly what
/// both `TimerBox::handle_call` and `TimerModel::apply_call` guarantee.
pub open spec fn chain_apply(
    t: TimerModel,
    calls: Seq<TimerCall>,
    results: Seq<TimerModel>,
) -> bool
    decreases calls.len(),
{
    results.len() == calls.len() && (calls.len() == 0 || {
        &&& chain_apply(t, calls.drop_last(), results.drop_last())
        &&& spec_apply_call(
            if calls.len() == 1 {
                t
            } else {
                results[calls.len() - 2]
            },
            calls.last(),
            results.last(),
        )
    })
}

/// Law: for any sequence of calls issued from inside a tick, the phase
/// transitions produced through the facade are identical to issuing the same
/// calls directly against the timer — every execution follows `run_control`,
/// the timer's own phase machine, so the facade introduces no extra states.
pub proof fn lemma_facade_introduces_no_states(
    t: TimerModel,
    calls: Seq<TimerCall>,
    results: Seq<TimerModel>,
)
    requires
        t.wf(),
        calls.len() > 0,
        chain_apply(t, calls, results),
    ensures
        results.last().wf(),
        control_of(results.last()) == run_control(control_of(t), calls),
    decreases calls.len(),
{
    if calls.len() == 1 {
        lemma_call_preserves_wf(t, calls.last(), results.last());
        lemma_call_determines_control(t, calls.last(), results.last());
        assert(run_control(control_of(t), calls.drop_last()) == control_of(t));
    } else {
        let prev = results[calls.len() - 2];
        lemma_facade_introduces_no_states(t, calls.drop_last(), results.drop_last());
        assert(results.drop_last().last() == prev);
        lemma_call_preserves_wf(prev, calls.last(), results.last());
        lemma_call_determines_control(prev, calls.last(), results.last());
    }
}

} // verus!
