//! The shared timer state machine and the capability surface a plugin sees.
//!
//! The timer has four phases, a current split index, a game-time clock that
//! can be paused independently, and named custom variables.  The host UI
//! drives it through hotkeys; the plugin drives it through [`TimerBox`], the
//! only channel a sandboxed plugin has to the outside world.  Game-time
//! values are carried opaquely as the bit pattern of a binary64 seconds
//! value; this module never interprets them.

use vstd::prelude::*;

verus! {

#[derive(Clone, Copy, PartialEq, Eq, Structural, Debug)]
pub enum TimerPhase {
    NotRunning,
    Running,
    Ended,
    Paused,
}

#[derive(Clone, Copy, PartialEq, Eq, Structural, Debug)]
pub enum TimingMethod {
    RealTime,
    GameTime,
}

/// The timer proper.  `segment_count` is fixed by the loaded run and is
/// always at least one; `current_split_index` is `Some` exactly while an
/// attempt is in progress (running or paused).
pub struct TimerModel {
    pub phase: TimerPhase,
    pub segment_count: usize,
    pub current_split_index: Option<usize>,
    pub timing_method: TimingMethod,
    pub game_time_paused: bool,
    pub game_time_bits: u64,
    pub variables: Vec<(String, String)>,
}

/// Upsert into an association list: replace the value in place when the key
/// is present (first occurrence decides), append otherwise.
pub open spec fn upsert_var(
    vars: Seq<(String, String)>,
    key: String,
    value: String,
) -> Seq<(String, String)>
    decreases vars.len(),
{
    if vars.len() == 0 {
        seq![(key, value)]
    } else if vars[0].0@ == key@ {
        seq![(vars[0].0, value)] + vars.subrange(1, vars.len() as int)
    } else {
        seq![vars[0]] + upsert_var(vars.subrange(1, vars.len() as int), key, value)
    }
}

impl TimerModel {
    pub open spec fn wf(self) -> bool {
        &&& self.segment_count >= 1
        &&& (self.phase is NotRunning ==> self.current_split_index is None)
        &&& (self.phase is Ended ==> self.current_split_index is None)
        &&& (self.phase is Running || self.phase is Paused ==> match self
            .current_split_index {
            Some(i) => i < self.segment_count,
            None => false,
        })
    }

    /// A fresh timer for a run with `segment_count` segments.
    pub fn new(segment_count: usize) -> (t: Self)
        requires
            segment_count >= 1,
        ensures
            t.phase == TimerPhase::NotRunning,
            t.segment_count == segment_count,
            t.current_split_index is None,
            t.timing_method == TimingMethod::RealTime,
            !t.game_time_paused,
            t.game_time_bits == 0,
            t.variables@.len() == 0,
            t.wf(),
    {
        TimerModel {
            phase: TimerPhase::NotRunning,
            segment_count,
            current_split_index: None,
            timing_method: TimingMethod::RealTime,
            game_time_paused: false,
            game_time_bits: 0,
            variables: Vec::new(),
        }
    }

    pub open spec fn spec_start(self) -> TimerModel {
        if self.phase is NotRunning {
            TimerModel { phase: TimerPhase::Running, current_split_index: Some(0usize), ..self }
        } else {
            self
        }
    }

    /// Begin an attempt.  Does nothing unless the timer is idle.
    pub fn start(&mut self)
        requires
            old(self).wf(),
        ensures
            *final(self) == old(self).spec_start(),
            final(self).wf(),
    {
        if matches!(self.phase, TimerPhase::NotRunning) {
            self.phase = TimerPhase::Running;
            self.current_split_index = Some(0);
        }
    }

    pub open spec fn spec_split(self) -> TimerModel {
        if self.phase is Running {
            match self.current_split_index {
                Some(i) => if i + 1 == self.segment_count {
                    TimerModel {
                        phase: TimerPhase::Ended,
                        current_split_index: None::<usize>,
                        ..self
                    }
                } else {
                    TimerModel { current_split_index: Some((i + 1) as usize), ..self }
                },
                None => self,
            }
        } else {
            self
        }
    }

    /// Complete the current segment; completing the last one ends the
    /// attempt.  Only acts while the timer is running.
    pub fn split(&mut self)
        requires
            old(self).wf(),
        ensures
            *final(self) == old(self).spec_split(),
            final(self).wf(),
    {
        if matches!(self.phase, TimerPhase::Running) {
            if let Some(i) = self.current_split_index {
                if i + 1 == self.segment_count {
                    self.phase = TimerPhase::Ended;
                    self.current_split_index = None;
                } else {
                    self.current_split_index = Some(i + 1);
                }
            }
        }
    }

    pub open spec fn spec_skip_split(self) -> TimerModel {
        if self.phase is Running || self.phase is Paused {
            match self.current_split_index {
                Some(i) => if i + 1 < self.segment_count {
                    TimerModel { current_split_index: Some((i + 1) as usize), ..self }
                } else {
                    self
                },
                None => self,
            }
        } else {
            self
        }
    }

    /// Move past the current segment without recording a time.  Never ends
    /// the attempt: the last segment cannot be skipped.
    pub fn skip_split(&mut self)
        requires
            old(self).wf(),
        ensures
            *final(self) == old(self).spec_skip_split(),
            final(self).wf(),
    {
        if matches!(self.phase, TimerPhase::Running | TimerPhase::Paused) {
            if let Some(i) = self.current_split_index {
                if i + 1 < self.segment_count {
                    self.current_split_index = Some(i + 1);
                }
            }
        }
    }

    pub open spec fn spec_undo_split(self) -> TimerModel {
        if self.phase is Ended {
            TimerModel {
                phase: TimerPhase::Running,
                current_split_index: Some((self.segment_count - 1) as usize),
                ..self
            }
        } else if self.phase is Running || self.phase is Paused {
            match self.current_split_index {
                Some(i) => if i > 0 {
                    TimerModel { current_split_index: Some((i - 1) as usize), ..self }
                } else {
                    self
                },
                None => self,
            }
        } else {
            self
        }
    }

    /// Step back one segment; undoing the final split reopens an ended
    /// attempt.
    pub fn undo_split(&mut self)
        requires
            old(self).wf(),
        ensures
            *final(self) == old(self).spec_undo_split(),
            final(self).wf(),
    {
        if matches!(self.phase, TimerPhase::Ended) {
            self.phase = TimerPhase::Running;
            self.current_split_index = Some(self.segment_count - 1);
        } else if matches!(self.phase, TimerPhase::Running | TimerPhase::Paused) {
            if let Some(i) = self.current_split_index {
                if i > 0 {
                    self.current_split_index = Some(i - 1);
                }
            }
        }
    }

    pub open spec fn spec_reset(self) -> TimerModel {
        if self.phase is NotRunning {
            self
        } else {
            TimerModel {
                phase: TimerPhase::NotRunning,
                current_split_index: None::<usize>,
                game_time_paused: false,
                game_time_bits: 0u64,
                ..self
            }
        }
    }

    /// Abandon the attempt and return to idle, discarding all
    /// comparison-affecting state; a full reset, never a "keep splits"
    /// variant.
    pub fn reset(&mut self)
        requires
            old(self).wf(),
        ensures
            *final(self) == old(self).spec_reset(),
            final(self).wf(),
    {
        if !matches!(self.phase, TimerPhase::NotRunning) {
            self.phase = TimerPhase::NotRunning;
            self.current_split_index = None;
            self.game_time_paused = false;
            self.game_time_bits = 0;
        }
    }

    pub open spec fn spec_pause(self) -> TimerModel {
        if self.phase is Running {
            TimerModel { phase: TimerPhase::Paused, ..self }
        } else {
            self
        }
    }

    pub fn pause(&mut self)
        requires
            old(self).wf(),
        ensures
            *final(self) == old(self).spec_pause(),
            final(self).wf(),
    {
        if matches!(self.phase, TimerPhase::Running) {
            self.phase = TimerPhase::Paused;
        }
    }

    pub open spec fn spec_resume(self) -> TimerModel {
        if self.phase is Paused {
            TimerModel { phase: TimerPhase::Running, ..self }
        } else {
            self
        }
    }

    pub fn resume(&mut self)
        requires
            old(self).wf(),
        ensures
            *final(self) == old(self).spec_resume(),
            final(self).wf(),
    {
        if matches!(self.phase, TimerPhase::Paused) {
            self.phase = TimerPhase::Running;
        }
    }

    pub open spec fn spec_toggle_pause(self) -> TimerModel {
        if self.phase is Running {
            TimerModel { phase: TimerPhase::Paused, ..self }
        } else if self.phase is Paused {
            TimerModel { phase: TimerPhase::Running, ..self }
        } else {
            self
        }
    }

    pub fn toggle_pause(&mut self)
        requires
            old(self).wf(),
        ensures
            *final(self) == old(self).spec_toggle_pause(),
            final(self).wf(),
    {
        if matches!(self.phase, TimerPhase::Running) {
            self.phase = TimerPhase::Paused;
        } else if matches!(self.phase, TimerPhase::Paused) {
            self.phase = TimerPhase::Running;
        }
    }

    pub open spec fn spec_split_or_start(self) -> TimerModel {
        if self.phase is NotRunning {
            self.spec_start()
        } else {
            self.spec_split()
        }
    }

    pub fn split_or_start(&mut self)
        requires
            old(self).wf(),
        ensures
            *final(self) == old(self).spec_split_or_start(),
            final(self).wf(),
    {
        if matches!(self.phase, TimerPhase::NotRunning) {
            self.start();
        } else {
            self.split();
        }
    }

    pub open spec fn spec_toggle_timing_method(self) -> TimerModel {
        TimerModel {
            timing_method: match self.timing_method {
                TimingMethod::RealTime => TimingMethod::GameTime,
                TimingMethod::GameTime => TimingMethod::RealTime,
            },
            ..self
        }
    }

    pub fn toggle_timing_method(&mut self)
        requires
            old(self).wf(),
        ensures
            *final(self) == old(self).spec_toggle_timing_method(),
            final(self).wf(),
    {
        self.timing_method = match self.timing_method {
            TimingMethod::RealTime => TimingMethod::GameTime,
            TimingMethod::GameTime => TimingMethod::RealTime,
        };
    }

    pub open spec fn spec_set_game_time(self, bits: u64) -> TimerModel {
        TimerModel { game_time_bits: bits, ..self }
    }

    pub fn set_game_time(&mut self, bits: u64)
        requires
            old(self).wf(),
        ensures
            *final(self) == old(self).spec_set_game_time(bits),
            final(self).wf(),
    {
        self.game_time_bits = bits;
    }

    pub open spec fn spec_pause_game_time(self) -> TimerModel {
        TimerModel { game_time_paused: true, ..self }
    }

    pub fn pause_game_time(&mut self)
        requires
            old(self).wf(),
        ensures
            *final(self) == old(self).spec_pause_game_time(),
            final(self).wf(),
    {
        self.game_time_paused = true;
    }

    pub open spec fn spec_resume_game_time(self) -> TimerModel {
        TimerModel { game_time_paused: false, ..self }
    }

    pub fn resume_game_time(&mut self)
        requires
            old(self).wf(),
        ensures
            *final(self) == old(self).spec_resume_game_time(),
            final(self).wf(),
    {
        self.game_time_paused = false;
    }

    /// The phase as the small integer a rendering frontend displays.
    pub fn phase_code(&self) -> (r: u8)
        ensures
            r == match self.phase {
                TimerPhase::NotRunning => 0u8,
                TimerPhase::Running => 1u8,
                TimerPhase::Ended => 2u8,
                TimerPhase::Paused => 3u8,
            },
    {
        match self.phase {
            TimerPhase::NotRunning => 0,
            TimerPhase::Running => 1,
            TimerPhase::Ended => 2,
            TimerPhase::Paused => 3,
        }
    }

    /// The split index a rendering frontend displays: the current index, or
    /// -1 while no attempt is in progress.
    pub fn split_index_display(&self) -> (r: i32)
        requires
            self.current_split_index matches Some(i) ==> i <= i32::MAX,
        ensures
            r == match self.current_split_index {
                Some(i) => i as i32,
                None => -1i32,
            },
    {
        match self.current_split_index {
            Some(i) => i as i32,
            None => -1,
        }
    }

    /// Upsert a custom variable.  No validation: an empty key is stored like
    /// any other.
    pub fn set_variable(&mut self, key: &String, value: String)
        requires
            old(self).wf(),
        ensures
            final(self).variables@ == upsert_var(old(self).variables@, *key, value),
            final(self).phase == old(self).phase,
            final(self).segment_count == old(self).segment_count,
            final(self).current_split_index == old(self).current_split_index,
            final(self).timing_method == old(self).timing_method,
            final(self).game_time_paused == old(self).game_time_paused,
            final(self).game_time_bits == old(self).game_time_bits,
            final(self).wf(),
    {
        let mut i: usize = 0;
        let n = self.variables.len();
        while i < n
            invariant
                old(self).wf(),
                n == self.variables.len(),
                i <= n,
                *self == *old(self),
                forall|j: int| 0 <= j < i ==> #[trigger] self.variables@[j].0@ != key@,
            decreases n - i,
        {
            if self.variables[i].0 == *key {
                let stored_key = self.variables[i].0.clone();
                self.variables.set(i, (stored_key, value));
                proof {
                    lemma_upsert_var_found(old(self).variables@, *key, value, i as int);
                }
                return ;
            }
            i += 1;
        }
        self.variables.push((key.clone(), value));
        proof {
            lemma_upsert_var_absent(old(self).variables@, *key, value);
        }
    }
}

/// When `key`'s view first occurs at index `i`, the upsert replaces that
/// value in place and leaves everything else alone.
proof fn lemma_upsert_var_found(vars: Seq<(String, String)>, key: String, value: String, i: int)
    requires
        0 <= i < vars.len(),
        vars[i].0@ == key@,
        forall|j: int| 0 <= j < i ==> #[trigger] vars[j].0@ != key@,
    ensures
        upsert_var(vars, key, value) =~= vars.update(i, (vars[i].0, value)),
    decreases i,
{
    if i > 0 {
        lemma_upsert_var_found(vars.subrange(1, vars.len() as int), key, value, i - 1);
    }
}

/// When `key`'s view is absent, the upsert appends the new pair.
proof fn lemma_upsert_var_absent(vars: Seq<(String, String)>, key: String, value: String)
    requires
        forall|j: int| 0 <= j < vars.len() ==> #[trigger] vars[j].0@ != key@,
    ensures
        upsert_var(vars, key, value) =~= vars.push((key, value)),
    decreases vars.len(),
{
    if vars.len() > 0 {
        lemma_upsert_var_absent(vars.subrange(1, vars.len() as int), key, value);
    }
}

} // verus!
