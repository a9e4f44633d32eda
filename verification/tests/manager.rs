use dead_split::config::AutosplitterConfig;
use dead_split::menu::{apply_hotkey_action, RunMenuData, SplitMenuData};
use dead_split::hotkeys::HotkeyAction;
use dead_split::sandbox::{
    resolve_load, update_autosplitter_config_settings, AutosplitterManager, LoadError,
};
use dead_split::scheduler::{SchedulerPhase, TickDecision};
use dead_split::settings::{SettingValue, SettingsMap, Widget, WidgetKind};
use dead_split::timer::{TimerModel, TimerPhase, TimingMethod};

fn toggle_schema() -> Vec<Widget> {
    vec![
        Widget {
            key: "fast_mode".to_owned(),
            kind: WidgetKind::BooleanToggle { default_value: false },
        },
        Widget { key: "title".to_owned(), kind: WidgetKind::SectionTitle { heading_level: 1 } },
        Widget {
            key: "safe_strats".to_owned(),
            kind: WidgetKind::BooleanToggle { default_value: true },
        },
    ]
}

#[test]
fn load_errors_name_the_first_failing_stage() {
    assert_eq!(resolve_load(false, false, false), Err(LoadError::FileUnreadable));
    assert_eq!(resolve_load(true, false, true), Err(LoadError::CompileFailed));
    assert_eq!(resolve_load(true, true, false), Err(LoadError::InstantiateFailed));
    assert_eq!(resolve_load(true, true, true), Ok(()));
}

#[test]
fn manager_lifecycle_interrupt_then_dispose() {
    let mut m = AutosplitterManager::new(toggle_schema(), SettingsMap::new(), 0, 100);
    assert_eq!(m.scheduler.phase, SchedulerPhase::Running);
    assert_eq!(m.settings_widgets().len(), 3);
    m.interrupt();
    assert_eq!(m.scheduler.phase, SchedulerPhase::Interrupted);
    assert_eq!(m.scheduler.poll(), TickDecision::Exit);
    assert_eq!(m.scheduler.phase, SchedulerPhase::Stopped);
    // Only now may the plugin's resources be released.
    let bridge = m.dispose();
    assert_eq!(bridge.settings_widgets().len(), 3);
}

#[test]
fn bool_toggles_overlay_the_map_on_the_defaults() {
    let mut m = AutosplitterManager::new(toggle_schema(), SettingsMap::new(), 0, 100);
    let toggles = m.bridge.bool_toggles();
    // The section title contributes nothing; the toggles show defaults.
    assert_eq!(toggles.len(), 2);
    assert_eq!(toggles[0], ("fast_mode".to_owned(), false));
    assert_eq!(toggles[1], ("safe_strats".to_owned(), true));

    let mut map = SettingsMap::new();
    map.insert("fast_mode".to_owned(), SettingValue::Bool(true));
    // A non-boolean under a toggle's key reads as the default.
    map.insert("safe_strats".to_owned(), SettingValue::I64(0));
    m.set_settings_map(map);
    let toggles = m.bridge.bool_toggles();
    assert_eq!(toggles[0], ("fast_mode".to_owned(), true));
    assert_eq!(toggles[1], ("safe_strats".to_owned(), true));
}

#[test]
fn undeclared_boolean_entries_are_not_dropped() {
    // A live map holding a boolean under a key no widget declares: the
    // dictionary still carries it, after the schema-driven rows.
    let mut m = AutosplitterManager::new(toggle_schema(), SettingsMap::new(), 0, 100);
    let mut map = SettingsMap::new();
    map.insert("fast_mode".to_owned(), SettingValue::Bool(true));
    map.insert("secret_skip".to_owned(), SettingValue::Bool(true));
    // A non-boolean undeclared entry is skipped as unsupported, not an error.
    map.insert("threshold".to_owned(), SettingValue::I64(3));
    m.set_settings_map(map);
    let dict = m.get_settings_dict();
    assert_eq!(dict.len(), 3);
    assert_eq!(dict[0], ("fast_mode".to_owned(), true));
    assert_eq!(dict[1], ("safe_strats".to_owned(), true));
    assert_eq!(dict[2], ("secret_skip".to_owned(), true));
}

#[test]
fn empty_schema_still_shows_stored_booleans() {
    let mut m = AutosplitterManager::new(Vec::new(), SettingsMap::new(), 0, 100);
    let mut map = SettingsMap::new();
    map.insert("x".to_owned(), SettingValue::Bool(true));
    m.set_settings_map(map);
    let dict = m.get_settings_dict();
    assert_eq!(dict, vec![("x".to_owned(), true)]);
}

#[test]
fn all_bool_schema_and_map_give_widget_and_map_keys() {
    let schema = vec![
        Widget { key: "a".to_owned(), kind: WidgetKind::BooleanToggle { default_value: false } },
        Widget { key: "b".to_owned(), kind: WidgetKind::BooleanToggle { default_value: true } },
    ];
    let mut map = SettingsMap::new();
    map.insert("b".to_owned(), SettingValue::Bool(false));
    map.insert("c".to_owned(), SettingValue::Bool(true));
    let m = AutosplitterManager::new(schema, map, 0, 100);
    let dict = m.get_settings_dict();
    // Widget keys with their effective values, then the map keys no widget
    // declares, with their current values.
    assert_eq!(
        dict,
        vec![("a".to_owned(), false), ("b".to_owned(), false), ("c".to_owned(), true)]
    );
}

#[test]
fn edited_toggles_fold_back_into_the_map() {
    let mut m = AutosplitterManager::new(toggle_schema(), SettingsMap::new(), 0, 100);
    let shown = m.get_settings_dict();
    assert_eq!(shown.len(), 2);
    let edited = vec![("fast_mode".to_owned(), true), ("safe_strats".to_owned(), false)];
    m.set_settings_dict(&edited);
    let map = m.settings_map();
    assert_eq!(map.len(), 2);
    assert!(matches!(map.entry_at(0).1, SettingValue::Bool(true)));
    assert!(matches!(map.entry_at(1).1, SettingValue::Bool(false)));
}

#[test]
fn config_settings_follow_the_live_map() {
    let mut m = AutosplitterManager::new(toggle_schema(), SettingsMap::new(), 0, 100);
    let mut live = SettingsMap::new();
    live.insert("fast_mode".to_owned(), SettingValue::Bool(true));
    live.insert("nested".to_owned(), SettingValue::MapValue(SettingsMap::new()));
    m.set_settings_map(live);

    let mut cfg = AutosplitterConfig::new_default();
    cfg.enabled = true;
    update_autosplitter_config_settings(&mut cfg, Some(&m));
    assert!(cfg.enabled);
    assert_eq!(cfg.settings.len(), 1);
    assert_eq!(cfg.settings[0].0, "fast_mode");

    // With no plugin loaded the document is left alone.
    let before = cfg.settings.len();
    update_autosplitter_config_settings(&mut cfg, None);
    assert_eq!(cfg.settings.len(), before);
}

#[test]
fn hotkey_actions_drive_the_timer_and_the_frame() {
    let mut t = TimerModel::new(2);
    let o = apply_hotkey_action(&mut t, HotkeyAction::StartSplit, true);
    assert_eq!(t.phase, TimerPhase::Running);
    assert!(!o.reload_components && !o.save_profile && !o.open_settings);

    let o = apply_hotkey_action(&mut t, HotkeyAction::TogglePause, true);
    assert_eq!(t.phase, TimerPhase::Paused);
    assert!(o.notification.is_none());
    apply_hotkey_action(&mut t, HotkeyAction::Unpause, true);
    assert_eq!(t.phase, TimerPhase::Running);

    // Finishing the run through the hotkey asks for a component reload.
    apply_hotkey_action(&mut t, HotkeyAction::StartSplit, true);
    let o = apply_hotkey_action(&mut t, HotkeyAction::StartSplit, true);
    assert_eq!(t.phase, TimerPhase::Ended);
    assert!(o.reload_components);

    let o = apply_hotkey_action(&mut t, HotkeyAction::Reset, true);
    assert_eq!(t.phase, TimerPhase::NotRunning);
    assert!(o.reload_components && o.save_profile);
    let o = apply_hotkey_action(&mut t, HotkeyAction::Reset, false);
    assert!(!o.save_profile);

    let o = apply_hotkey_action(&mut t, HotkeyAction::OpenSettings, true);
    assert!(o.open_settings);

    let o = apply_hotkey_action(&mut t, HotkeyAction::ToggleTimingMethod, true);
    assert_eq!(t.timing_method, TimingMethod::GameTime);
    assert_eq!(o.notification.as_deref(), Some("Timing Method: Game Time"));
    let o = apply_hotkey_action(&mut t, HotkeyAction::ToggleTimingMethod, true);
    assert_eq!(o.notification.as_deref(), Some("Timing Method: Real Time"));
}

#[test]
fn run_editor_state_starts_empty() {
    let d = RunMenuData::default();
    assert!(!d.generated);
    assert_eq!(d.attempt_val, 0);
    assert!(d.split_data.is_empty());
    let s = SplitMenuData::default();
    assert_eq!(s.name, "");
    assert_eq!(s.pb_rta_str, "");
}
