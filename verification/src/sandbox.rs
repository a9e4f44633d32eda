//! Loading a plugin into the sandbox and owning it until teardown.
//!
//! The sandbox itself — reading the module file, compiling the bytecode,
//! instantiating it against the capability table — runs outside this crate;
//! each stage reports back whether it succeeded.  This module decides what
//! those outcomes mean: loading is atomic (a fully usable instance or
//! nothing, never a partial handle), and teardown must interrupt the
//! scheduler and then wait until its thread has actually stopped before any
//! resource the plugin might still reference is released.

use vstd::prelude::*;

use crate::scheduler::{PluginScheduler, SchedulerPhase};
use crate::settings::{SettingsBridge, SettingsMap, Widget};

verus! {

/// Why a plugin failed to load.  Whatever the stage, no plugin becomes
/// active and the host keeps running without autosplitting.
#[derive(Clone, Copy, PartialEq, Eq, Structural, Debug)]
pub enum LoadError {
    FileUnreadable,
    CompileFailed,
    InstantiateFailed,
}

/// Combine the stage outcomes of one load attempt.  Success is owed exactly
/// when every stage succeeded; otherwise the first failing stage names the
/// error and no instance exists.
pub fn resolve_load(read_ok: bool, compile_ok: bool, instantiate_ok: bool) -> (r: Result<
    (),
    LoadError,
>)
    ensures
        r is Ok <==> read_ok && compile_ok && instantiate_ok,
        !read_ok ==> r == Err::<(), LoadError>(LoadError::FileUnreadable),
        read_ok && !compile_ok ==> r == Err::<(), LoadError>(LoadError::CompileFailed),
        read_ok && compile_ok && !instantiate_ok ==> r == Err::<(), LoadError>(
            LoadError::InstantiateFailed,
        ),
{
    if !read_ok {
        Err(LoadError::FileUnreadable)
    } else if !compile_ok {
        Err(LoadError::CompileFailed)
    } else if !instantiate_ok {
        Err(LoadError::InstantiateFailed)
    } else {
        Ok(())
    }
}

/// One loaded plugin: the scheduling state of its dedicated thread and its
/// settings surface.  Constructed only after `resolve_load` returned `Ok`,
/// so a manager always stands for a fully instantiated plugin.
pub struct AutosplitterManager {
    pub scheduler: PluginScheduler,
    pub bridge: SettingsBridge,
}

impl AutosplitterManager {
    pub open spec fn wf(self) -> bool {
        &&& self.scheduler.wf()
        &&& self.bridge.wf()
    }

    /// Take ownership of a freshly instantiated plugin: the schema it
    /// declared, its initial settings, and the tick interval; the thread
    /// starts ticking at `now`.
    pub fn new(schema: Vec<Widget>, initial_map: SettingsMap, now: u64, interval: u64) -> (m:
        Self)
        requires
            interval >= 1,
            initial_map.wf(),
        ensures
            m.scheduler.phase == SchedulerPhase::Running,
            m.scheduler.schedule.next_tick == now,
            m.scheduler.schedule.interval == interval,
            !m.scheduler.interrupt_requested,
            m.bridge.spec_schema() == schema@,
            m.bridge.spec_map() == initial_map,
            m.wf(),
    {
        AutosplitterManager {
            scheduler: PluginScheduler::start(now, interval),
            bridge: SettingsBridge::new(schema, initial_map),
        }
    }

    /// The widgets the plugin declared, fixed at load time.
    pub fn settings_widgets(&self) -> (w: &Vec<Widget>)
        ensures
            w@ == self.bridge.spec_schema(),
    {
        self.bridge.settings_widgets()
    }

    /// A snapshot of the live settings map.
    pub fn settings_map(&self) -> (m: &SettingsMap)
        ensures
            *m == self.bridge.spec_map(),
    {
        self.bridge.settings_map()
    }

    /// Whole-map replacement, under the instance's execution lock.
    pub fn set_settings_map(&mut self, map: SettingsMap)
        requires
            old(self).wf(),
            map.wf(),
        ensures
            final(self).bridge.spec_map() == map,
            final(self).bridge.spec_schema() == old(self).bridge.spec_schema(),
            final(self).scheduler == old(self).scheduler,
            final(self).wf(),
    {
        self.bridge.set_settings_map(map);
    }

    /// The boolean settings a view shows, as plain `(key, value)` pairs:
    /// each declared toggle with the stored boolean where the map has one
    /// and its default otherwise, then every boolean entry of the live map
    /// that no toggle declares, with its current value.
    pub fn get_settings_dict(&self) -> (r: Vec<(String, bool)>)
        ensures
            r@ == crate::settings::spec_bool_toggles(
                self.bridge.spec_schema(),
                self.bridge.spec_map().entries@,
            ) + crate::settings::undeclared_bool_entries(
                self.bridge.spec_schema(),
                self.bridge.spec_map().entries@,
            ),
    {
        self.bridge.bool_toggles()
    }

    /// Fold edited toggle values back into the live map, first to last.
    pub fn set_settings_dict(&mut self, dict: &Vec<(String, bool)>)
        requires
            old(self).wf(),
        ensures
            final(self).bridge.spec_map().entries@ == crate::settings::spec_apply_bools(
                old(self).bridge.spec_map().entries@,
                dict@,
            ),
            final(self).bridge.spec_schema() == old(self).bridge.spec_schema(),
            final(self).scheduler == old(self).scheduler,
            final(self).wf(),
    {
        self.bridge.apply_bool_values(dict);
    }

    /// First half of teardown: ask the scheduling thread to stop.
    pub fn interrupt(&mut self)
        requires
            old(self).wf(),
        ensures
            final(self).scheduler == crate::scheduler::spec_interrupt(old(self).scheduler),
            final(self).bridge == old(self).bridge,
            final(self).wf(),
    {
        self.scheduler.interrupt();
    }

    /// Second half of teardown, callable only once the thread has actually
    /// exited: hands back the settings surface so its final state can be
    /// persisted, and releases everything the plugin might have referenced.
    pub fn dispose(self) -> (b: SettingsBridge)
        requires
            self.scheduler.phase == SchedulerPhase::Stopped,
        ensures
            b == self.bridge,
    {
        self.bridge
    }
}

/// Law: once `interrupt` has been called on a manager, no later event in the
/// life of its scheduling loop dispatches another plugin update, and the
/// first poll that follows moves the thread to `Stopped` — after which, and
/// only after which, `dispose` may release the plugin's resources.
pub proof fn lemma_manager_interrupt_stops_updates(
    m: AutosplitterManager,
    es: Seq<crate::scheduler::SchedulerEvent>,
    k: int,
)
    requires
        0 <= k < es.len(),
    ensures
        !crate::scheduler::dispatches_update(
            crate::scheduler::run_steps(crate::scheduler::spec_interrupt(m.scheduler), es.take(k)),
            es[k],
        ),
        es[k] is Poll ==> crate::scheduler::run_steps(
            crate::scheduler::spec_interrupt(m.scheduler),
            es.take(k + 1),
        ).phase == SchedulerPhase::Stopped,
{
    crate::scheduler::lemma_interrupt_stops_updates(
        crate::scheduler::spec_interrupt(m.scheduler),
        es,
        k,
    );
}

/// Law: provided each update call returns within one interval of its
/// wake-up, an interrupt requested at time `t` during a loop cycle is
/// observed — and the thread therefore stopped — no later than two tick
/// intervals after the request.
pub proof fn lemma_manager_interrupt_observed_within_two_intervals(
    wake: int,
    interval: int,
    completion: int,
    t: int,
)
    requires
        interval >= 1,
        wake <= completion <= wake + interval,
        wake <= t <= crate::scheduler::next_wake_time(wake, interval, completion),
    ensures
        crate::scheduler::next_wake_time(wake, interval, completion) <= t + 2 * interval,
{
    crate::scheduler::lemma_interrupt_observed_within_two_intervals(wake, interval, completion, t);
}

/// Refresh the persisted document's settings from the live map of the
/// loaded plugin, dropping nested entries; with no plugin loaded the
/// document is left alone.  The enabled flag is never touched here.
pub fn update_autosplitter_config_settings(
    cfg: &mut crate::config::AutosplitterConfig,
    mgr: Option<&AutosplitterManager>,
)
    requires
        match mgr {
            Some(m) => m.wf(),
            None => true,
        },
    ensures
        match mgr {
            Some(m) => final(cfg).settings@ == crate::config::spec_encode_entries(
                m.bridge.spec_map().entries@,
            ) && final(cfg).enabled == old(cfg).enabled && final(cfg).wf(),
            None => *final(cfg) == *old(cfg),
        },
{
    match mgr {
        Some(m) => {
            let encoded = crate::config::AutosplitterConfig::encode(cfg.enabled, m.settings_map());
            cfg.settings = encoded.settings;
        },
        None => {},
    }
}

} // verus!
