//! The settings menu's requests and how the host applies them.
//!
//! While the menu is drawn it only records [`UpdateRequest`]s; once per
//! frame the host applies them to its configuration, the run being edited
//! and the component list.  Everything that must touch the platform — the
//! hotkey hook, the file system, the plugin runtime — is handed back to the
//! caller as a [`HostAction`] instead of being done here.

use vstd::prelude::*;

use crate::components::{TimerComponentType, TimerConfig};
use crate::config::GlobalConfig;
use crate::hotkeys::HotkeyAction;
use crate::splits::RunModel;
use crate::timer::{TimerModel, TimerPhase, TimingMethod};

verus! {

/// One deferred edit recorded by the settings menu.
pub enum UpdateRequest {
    ReloadHotkeyManager(bool),
    ClearHotkey(HotkeyAction),
    NewHotkeyBind(String, HotkeyAction),
    ReloadAutosplitter,
    LoadProfile(String),
    RemoveKnownDirectory(usize),
    AddKnownDirectory(String),
    RemoveComponent(usize),
    MoveComponentUp(usize),
    MoveComponentDown(usize),
    RemoveSegment(usize),
    MoveSegmentUp(usize),
    MoveSegmentDown(usize),
    SaveGlobalConfig,
}

/// What the host must still do outside this crate after a request was
/// applied.
pub enum HostAction {
    Nothing,
    ReloadHotkeyBackend(bool),
    UnbindHotkey(HotkeyAction),
    RebindHotkey(String, HotkeyAction),
    ReloadAutosplitterPlugin,
    PersistGlobalConfig,
}

/// Text fields of one segment row in the run editor.
pub struct SplitMenuData {
    pub name: String,
    pub pb_igt_str: String,
    pub pb_rta_str: String,
    pub best_igt_str: String,
    pub best_rta_str: String,
}

impl Default for SplitMenuData {
    fn default() -> (d: Self)
        ensures
            d.name@.len() == 0,
            d.pb_igt_str@.len() == 0,
            d.pb_rta_str@.len() == 0,
            d.best_igt_str@.len() == 0,
            d.best_rta_str@.len() == 0,
    {
        SplitMenuData {
            name: String::new(),
            pb_igt_str: String::new(),
            pb_rta_str: String::new(),
            best_igt_str: String::new(),
            best_rta_str: String::new(),
        }
    }
}

/// The run editor's working copy of the run's text fields.
pub struct RunMenuData {
    pub generated: bool,
    pub game_name_str: String,
    pub cat_name_str: String,
    pub attempt_val: u32,
    pub offset_str: String,
    pub split_data: Vec<SplitMenuData>,
    pub use_game_time_vals: bool,
}

impl Default for RunMenuData {
    fn default() -> (d: Self)
        ensures
            !d.generated,
            d.game_name_str@.len() == 0,
            d.cat_name_str@.len() == 0,
            d.attempt_val == 0,
            d.offset_str@.len() == 0,
            d.split_data@.len() == 0,
            !d.use_game_time_vals,
    {
        RunMenuData {
            generated: false,
            game_name_str: String::new(),
            cat_name_str: String::new(),
            attempt_val: 0,
            offset_str: String::new(),
            split_data: Vec::new(),
            use_game_time_vals: false,
        }
    }
}

pub open spec fn dirs_contain(dirs: Seq<String>, p: Seq<char>) -> bool {
    exists|i: int| 0 <= i < dirs.len() && (#[trigger] dirs[i])@ == p
}

/// `r1` is `r0` with its segment list replaced by `names`.
pub open spec fn same_run_but_segments(r0: RunModel, r1: RunModel, names: Seq<String>) -> bool {
    &&& r1.game_name == r0.game_name
    &&& r1.category_name == r0.category_name
    &&& r1.attempt_count == r0.attempt_count
    &&& r1.attempt_history == r0.attempt_history
    &&& r1.segment_names@ == names
}

/// Apply one menu request to the host's state.  The pure edits happen right
/// here; whatever needs the platform comes back as the action.
pub fn apply_update_request(
    global_config: &mut GlobalConfig,
    timer_config: &mut TimerConfig,
    changed_run: &mut Option<RunModel>,
    req: UpdateRequest,
) -> (act: HostAction)
    requires
        ({
            match req {
                UpdateRequest::RemoveKnownDirectory(idx) => idx < old(
                    global_config,
                ).known_directories@.len(),
                UpdateRequest::RemoveComponent(idx) => idx < old(timer_config).components@.len(),
                UpdateRequest::MoveComponentUp(idx) => idx < old(timer_config).components@.len(),
                UpdateRequest::MoveComponentDown(_) => old(timer_config).components@.len() > 0,
                UpdateRequest::RemoveSegment(idx) => match *old(changed_run) {
                    Some(r) => r.segment_names@.len() > 1 ==> idx < r.segment_names@.len(),
                    None => true,
                },
                UpdateRequest::MoveSegmentUp(idx) => match *old(changed_run) {
                    Some(r) => idx < r.segment_names@.len(),
                    None => true,
                },
                UpdateRequest::MoveSegmentDown(_) => match *old(changed_run) {
                    Some(r) => r.segment_names@.len() > 0,
                    None => true,
                },
                _ => true,
            }
        }),
    ensures
        ({
            let gc0 = *old(global_config);
            let gc1 = *final(global_config);
            let tc0 = *old(timer_config);
            let tc1 = *final(timer_config);
            let cr0 = *old(changed_run);
            let cr1 = *final(changed_run);
            match req {
                UpdateRequest::ReloadHotkeyManager(x11) => act == HostAction::ReloadHotkeyBackend(
                    x11,
                ) && gc1 == gc0 && tc1 == tc0 && cr1 == cr0,
                UpdateRequest::ClearHotkey(a) => act == HostAction::UnbindHotkey(a) && gc1 == gc0
                    && tc1 == tc0 && cr1 == cr0,
                UpdateRequest::NewHotkeyBind(s, a) => act == HostAction::RebindHotkey(s, a) && gc1
                    == gc0 && tc1 == tc0 && cr1 == cr0,
                UpdateRequest::ReloadAutosplitter => act == HostAction::ReloadAutosplitterPlugin
                    && gc1 == gc0 && tc1 == tc0 && cr1 == cr0,
                UpdateRequest::LoadProfile(path) => act == HostAction::PersistGlobalConfig
                    && gc1.active_profile == Some(path) && gc1.known_directories
                    == gc0.known_directories && gc1.autosave_splits == gc0.autosave_splits && tc1
                    == tc0 && cr1 == cr0,
                UpdateRequest::RemoveKnownDirectory(idx) => act == HostAction::PersistGlobalConfig
                    && gc1.known_directories@ == gc0.known_directories@.remove(idx as int)
                    && gc1.active_profile == gc0.active_profile && gc1.autosave_splits
                    == gc0.autosave_splits && tc1 == tc0 && cr1 == cr0,
                UpdateRequest::AddKnownDirectory(path) => {
                    &&& tc1 == tc0
                    &&& cr1 == cr0
                    &&& gc1.active_profile == gc0.active_profile
                    &&& gc1.autosave_splits == gc0.autosave_splits
                    &&& if dirs_contain(gc0.known_directories@, path@) {
                        act == HostAction::Nothing && gc1.known_directories
                            == gc0.known_directories
                    } else {
                        act == HostAction::PersistGlobalConfig && gc1.known_directories@
                            == gc0.known_directories@.push(path)
                    }
                },
                UpdateRequest::RemoveComponent(idx) => act == HostAction::Nothing && gc1 == gc0
                    && cr1 == cr0 && tc1.components@ == tc0.components@.remove(idx as int),
                UpdateRequest::MoveComponentUp(idx) => act == HostAction::Nothing && gc1 == gc0
                    && cr1 == cr0 && (if idx > 0 && tc0.components@.len() > 1 {
                    tc1.components@ == tc0.components@.update(
                        idx - 1,
                        tc0.components@[idx as int],
                    ).update(idx as int, tc0.components@[idx - 1])
                } else {
                    tc1 == tc0
                }),
                UpdateRequest::MoveComponentDown(idx) => act == HostAction::Nothing && gc1 == gc0
                    && cr1 == cr0 && (if idx < tc0.components@.len() - 1 {
                    tc1.components@ == tc0.components@.update(
                        idx as int,
                        tc0.components@[idx + 1],
                    ).update(idx + 1, tc0.components@[idx as int])
                } else {
                    tc1 == tc0
                }),
                UpdateRequest::RemoveSegment(idx) => act == HostAction::Nothing && gc1 == gc0
                    && tc1 == tc0 && (match cr0 {
                    Some(r0) => match cr1 {
                        Some(r1) => if r0.segment_names@.len() > 1 {
                            same_run_but_segments(
                                r0,
                                r1,
                                r0.segment_names@.remove(idx as int),
                            )
                        } else {
                            r1 == r0
                        },
                        None => false,
                    },
                    None => cr1 is None,
                }),
                UpdateRequest::MoveSegmentUp(idx) => act == HostAction::Nothing && gc1 == gc0
                    && tc1 == tc0 && (match cr0 {
                    Some(r0) => match cr1 {
                        Some(r1) => if idx > 0 && r0.segment_names@.len() > 1 {
                            same_run_but_segments(
                                r0,
                                r1,
                                r0.segment_names@.update(
                                    idx - 1,
                                    r0.segment_names@[idx as int],
                                ).update(idx as int, r0.segment_names@[idx - 1]),
                            )
                        } else {
                            r1 == r0
                        },
                        None => false,
                    },
                    None => cr1 is None,
                }),
                UpdateRequest::MoveSegmentDown(idx) => act == HostAction::Nothing && gc1 == gc0
                    && tc1 == tc0 && (match cr0 {
                    Some(r0) => match cr1 {
                        Some(r1) => if idx < r0.segment_names@.len() - 1 {
                            same_run_but_segments(
                                r0,
                                r1,
                                r0.segment_names@.update(
                                    idx as int,
                                    r0.segment_names@[idx + 1],
                                ).update(idx + 1, r0.segment_names@[idx as int]),
                            )
                        } else {
                            r1 == r0
                        },
                        None => false,
                    },
                    None => cr1 is None,
                }),
                UpdateRequest::SaveGlobalConfig => act == HostAction::PersistGlobalConfig && gc1
                    == gc0 && tc1 == tc0 && cr1 == cr0,
            }
        }),
{
    match req {
        UpdateRequest::ReloadHotkeyManager(x11) => HostAction::ReloadHotkeyBackend(x11),
        UpdateRequest::ClearHotkey(a) => HostAction::UnbindHotkey(a),
        UpdateRequest::NewHotkeyBind(s, a) => HostAction::RebindHotkey(s, a),
        UpdateRequest::ReloadAutosplitter => HostAction::ReloadAutosplitterPlugin,
        UpdateRequest::LoadProfile(path) => {
            global_config.active_profile = Some(path);
            HostAction::PersistGlobalConfig
        },
        UpdateRequest::RemoveKnownDirectory(idx) => {
            global_config.known_directories.remove(idx);
            HostAction::PersistGlobalConfig
        },
        UpdateRequest::AddKnownDirectory(path) => {
            let mut i: usize = 0;
            let n = global_config.known_directories.len();
            let mut found = false;
            while i < n
                invariant
                    n == global_config.known_directories@.len(),
                    i <= n,
                    *global_config == *old(global_config),
                    found <==> dirs_contain(
                        global_config.known_directories@.take(i as int),
                        path@,
                    ),
                decreases n - i,
            {
                if global_config.known_directories[i] == path {
                    found = true;
                    proof {
                        assert(global_config.known_directories@.take(i + 1)[i as int]@ == path@);
                    }
                } else {
                    proof {
                        assert(forall|j: int|
                            0 <= j < i + 1 ==> global_config.known_directories@.take(i + 1)[j]
                                == global_config.known_directories@.take(i as int).push(
                                global_config.known_directories@[i as int],
                            )[j]);
                        assert(global_config.known_directories@.take(i + 1)
                            =~= global_config.known_directories@.take(i as int).push(
                            global_config.known_directories@[i as int],
                        ));
                    }
                }
                i += 1;
            }
            proof {
                assert(global_config.known_directories@.take(n as int)
                    =~= global_config.known_directories@);
            }
            if found {
                HostAction::Nothing
            } else {
                global_config.known_directories.push(path);
                HostAction::PersistGlobalConfig
            }
        },
        UpdateRequest::RemoveComponent(idx) => {
            timer_config.components.remove(idx);
            HostAction::Nothing
        },
        UpdateRequest::MoveComponentUp(idx) => {
            if idx > 0 && timer_config.components.len() > 1 {
                let moved = timer_config.components.remove(idx - 1);
                timer_config.components.insert(idx, moved);
                proof {
                    assert(final(timer_config).components@ =~= old(
                        timer_config,
                    ).components@.update(
                        idx - 1,
                        old(timer_config).components@[idx as int],
                    ).update(idx as int, old(timer_config).components@[idx - 1]));
                }
            }
            HostAction::Nothing
        },
        UpdateRequest::MoveComponentDown(idx) => {
            if idx < timer_config.components.len() - 1 {
                let moved = timer_config.components.remove(idx);
                timer_config.components.insert(idx + 1, moved);
                proof {
                    assert(final(timer_config).components@ =~= old(
                        timer_config,
                    ).components@.update(
                        idx as int,
                        old(timer_config).components@[idx + 1],
                    ).update(idx + 1, old(timer_config).components@[idx as int]));
                }
            }
            HostAction::Nothing
        },
        UpdateRequest::RemoveSegment(idx) => {
            let taken = changed_run.take();
            match taken {
                Some(mut run) => {
                    if run.segment_names.len() > 1 {
                        run.remove_segment(idx);
                    }
                    *changed_run = Some(run);
                },
                None => {},
            }
            HostAction::Nothing
        },
        UpdateRequest::MoveSegmentUp(idx) => {
            let taken = changed_run.take();
            match taken {
                Some(mut run) => {
                    if idx > 0 && run.segment_names.len() > 1 {
                        run.swap_segment_down(idx - 1);
                    }
                    *changed_run = Some(run);
                },
                None => {},
            }
            HostAction::Nothing
        },
        UpdateRequest::MoveSegmentDown(idx) => {
            let taken = changed_run.take();
            match taken {
                Some(mut run) => {
                    if idx < run.segment_names.len() - 1 {
                        run.swap_segment_down(idx);
                    }
                    *changed_run = Some(run);
                },
                None => {},
            }
            HostAction::Nothing
        },
        UpdateRequest::SaveGlobalConfig => HostAction::PersistGlobalConfig,
    }
}

/// What one hotkey press leaves the host to do after the timer was driven.
pub struct HotkeyOutcome {
    pub reload_components: bool,
    pub save_profile: bool,
    pub open_settings: bool,
    pub notification: Option<String>,
}

/// Drive the timer for one hotkey press and report what else the frame must
/// do: reload the component views after a run ended or a reset, autosave on
/// reset when configured, open the settings window, or show which timing
/// method is now active.
pub fn apply_hotkey_action(timer: &mut TimerModel, action: HotkeyAction, autosave_splits: bool)
    -> (o: HotkeyOutcome)
    requires
        old(timer).wf(),
    ensures
        final(timer).wf(),
        ({
            let t0 = *old(timer);
            let t1 = *final(timer);
            match action {
                HotkeyAction::StartSplit => t1 == t0.spec_split_or_start() && o.reload_components
                    == (t1.phase is Ended) && !o.save_profile && !o.open_settings
                    && o.notification is None,
                HotkeyAction::Pause => t1 == t0.spec_pause() && !o.reload_components
                    && !o.save_profile && !o.open_settings && o.notification is None,
                HotkeyAction::Unpause => t1 == t0.spec_resume() && !o.reload_components
                    && !o.save_profile && !o.open_settings && o.notification is None,
                HotkeyAction::TogglePause => t1 == t0.spec_toggle_pause() && !o.reload_components
                    && !o.save_profile && !o.open_settings && o.notification is None,
                HotkeyAction::Reset => t1 == t0.spec_reset() && o.reload_components
                    && o.save_profile == autosave_splits && !o.open_settings
                    && o.notification is None,
                HotkeyAction::OpenSettings => t1 == t0 && !o.reload_components && !o.save_profile
                    && o.open_settings && o.notification is None,
                HotkeyAction::ToggleTimingMethod => t1 == t0.spec_toggle_timing_method()
                    && !o.reload_components && !o.save_profile && !o.open_settings && (match o
                    .notification {
                    Some(s) => s@ == (if t1.timing_method is RealTime {
                        "Timing Method: Real Time"@
                    } else {
                        "Timing Method: Game Time"@
                    }),
                    None => false,
                }),
            }
        }),
{
    match action {
        HotkeyAction::StartSplit => {
            timer.split_or_start();
            let ended = matches!(timer.phase, TimerPhase::Ended);
            HotkeyOutcome {
                reload_components: ended,
                save_profile: false,
                open_settings: false,
                notification: None,
            }
        },
        HotkeyAction::Pause => {
            timer.pause();
            HotkeyOutcome {
                reload_components: false,
                save_profile: false,
                open_settings: false,
                notification: None,
            }
        },
        HotkeyAction::Unpause => {
            timer.resume();
            HotkeyOutcome {
                reload_components: false,
                save_profile: false,
                open_settings: false,
                notification: None,
            }
        },
        HotkeyAction::TogglePause => {
            timer.toggle_pause();
            HotkeyOutcome {
                reload_components: false,
                save_profile: false,
                open_settings: false,
                notification: None,
            }
        },
        HotkeyAction::Reset => {
            timer.reset();
            HotkeyOutcome {
                reload_components: true,
                save_profile: autosave_splits,
                open_settings: false,
                notification: None,
            }
        },
        HotkeyAction::OpenSettings => {
            HotkeyOutcome {
                reload_components: false,
                save_profile: false,
                open_settings: true,
                notification: None,
            }
        },
        HotkeyAction::ToggleTimingMethod => {
            timer.toggle_timing_method();
            let text = match timer.timing_method {
                TimingMethod::RealTime => String::from_str("Timing Method: Real Time"),
                TimingMethod::GameTime => String::from_str("Timing Method: Game Time"),
            };
            HotkeyOutcome {
                reload_components: false,
                save_profile: false,
                open_settings: false,
                notification: Some(text),
            }
        },
    }
}

} // verus!
