use dead_split::components::{
    reload_components, Accuracy, ComponentInstance, TimerComponentConfig, TimerComponentType,
    TimerConfig, TitleComponentConfig, TitleComponent,
};
use dead_split::config::GlobalConfig;
use dead_split::hotkeys::{HotkeyAction, HotkeyBindings, PressSlot};
use dead_split::menu::{apply_update_request, HostAction, UpdateRequest};
use dead_split::splits::{
    get_default_run, get_delta_color, visible_window, DeltaCell, RunModel, SplitComponent,
    SplitComponentConfig, SplitRenderer, SubsplitMap,
};
use dead_split::settings::{SettingValue, SettingsMap};
use dead_split::text::{find_char, to_snake_case, u32_to_string};
use dead_split::timer::{TimerModel, TimerPhase};

fn run_with(names: &[&str]) -> RunModel {
    let mut run = get_default_run();
    run.segment_names.clear();
    for n in names {
        run.push_segment((*n).to_owned());
    }
    run
}

#[test]
fn to_snake_case_lowers_and_underscores() {
    assert_eq!(to_snake_case("My Cool Game"), "my_cool_game");
    assert_eq!(to_snake_case("ABC"), "abc");
    assert_eq!(to_snake_case(""), "");
    // Applying it twice changes nothing further.
    assert_eq!(to_snake_case(&to_snake_case("My Cool Game")), "my_cool_game");
}

#[test]
fn u32_to_string_renders_decimal() {
    assert_eq!(u32_to_string(0), "0");
    assert_eq!(u32_to_string(7), "7");
    assert_eq!(u32_to_string(1234), "1234");
    assert_eq!(u32_to_string(u32::MAX), "4294967295");
}

#[test]
fn find_char_returns_first_position() {
    assert_eq!(find_char("a}b}", '}'), Some(1));
    assert_eq!(find_char("abc", '}'), None);
}

#[test]
fn split_names_are_trimmed() {
    let run = run_with(&["-Sub One", "{Group} Final", "Plain"]);
    assert_eq!(SplitRenderer::from_run_index(&run, 0).name, "Sub One");
    assert_eq!(SplitRenderer::from_run_index(&run, 1).name, " Final");
    assert_eq!(SplitRenderer::from_run_index(&run, 2).name, "Plain");
    assert_eq!(SplitRenderer::subsplit_header_from_run_index(&run, 1).name, "Group");
    assert_eq!(SplitRenderer::subsplit_header_from_run_index(&run, 2).name, "Plain");
}

#[test]
fn subsplit_map_groups_marked_segments() {
    let run = run_with(&["Intro", "-A", "-B", "{Mid} C", "Outro"]);
    let map = SubsplitMap::from_run(&run);
    assert_eq!(map.subsplits.len(), 3);
    assert_eq!(map.subsplits[0].start_idx, 0);
    assert_eq!(map.subsplits[0].splits.len(), 0);
    assert_eq!(map.subsplits[1].start_idx, 1);
    // Header plus the two marked segments plus the closing one.
    assert_eq!(map.subsplits[1].splits.len(), 4);
    assert_eq!(map.subsplits[1].header.name, "Mid");
    assert_eq!(map.subsplits[2].start_idx, 4);
}

#[test]
fn get_subsplit_index_finds_first_group_at_or_after() {
    let run = run_with(&["Intro", "-A", "{Mid} B", "Outro"]);
    let map = SubsplitMap::from_run(&run);
    // Groups start at 0, 1, 3.
    assert_eq!(map.get_subsplit_index(0), 0);
    assert_eq!(map.get_subsplit_index(1), 1);
    assert_eq!(map.get_subsplit_index(2), 2);
    assert_eq!(map.get_subsplit_index(3), 2);
    // Beyond every group start: the documented fallback.
    assert_eq!(map.get_subsplit_index(9), 0);
}

#[test]
fn visible_window_keeps_current_row_inside() {
    let cfg = SplitComponentConfig::default();
    let (start, end, show_last) = visible_window(30, 14, &cfg);
    assert!(start <= 14 && 14 <= end && end < 30);
    assert!(end - start < cfg.num_splits_shown);
    assert!(show_last);
    // A short list fits entirely.
    let (start, end, show_last) = visible_window(3, 1, &cfg);
    assert_eq!((start, end), (0, 2));
    assert!(!show_last);
}

#[test]
fn delta_colors_follow_the_comparison() {
    let cfg = SplitComponentConfig::default();
    // No stored best below the new time: a gold split.
    assert_eq!(get_delta_color(&cfg, None, 500, None, 30_000), cfg.best_segment_color);
    assert_eq!(get_delta_color(&cfg, None, 500, Some(31_000), 30_000), cfg.best_segment_color);
    // Behind and losing / gaining.
    assert_eq!(get_delta_color(&cfg, Some(200), 500, Some(1_000), 30_000), cfg.behind_losing_color);
    assert_eq!(
        get_delta_color(&cfg, Some(900), 500, Some(1_000), 30_000),
        cfg.behind_gaining_color
    );
    // Ahead and gaining / losing.
    assert_eq!(get_delta_color(&cfg, Some(100), -500, Some(1_000), 30_000), cfg.ahead_gaining_color);
    assert_eq!(
        get_delta_color(&cfg, Some(-900), -500, Some(1_000), 30_000),
        cfg.ahead_losing_color
    );
    // No previous delta to compare against.
    assert_eq!(get_delta_color(&cfg, None, 500, Some(1_000), 30_000), cfg.behind_losing_color);
    assert_eq!(get_delta_color(&cfg, None, -500, Some(1_000), 30_000), cfg.ahead_gaining_color);
}

#[test]
fn scroll_tracks_timer_and_clamps() {
    let run = run_with(&["A", "B", "C"]);
    let cfg = SplitComponentConfig::default();
    let mut comp = SplitComponent::new(&run, &cfg);
    comp.update_scroll(1, 0, 3);
    assert_eq!(comp.segment_pos, 1);
    comp.update_scroll(1, -1, 3);
    assert_eq!(comp.segment_pos, 2);
    comp.update_scroll(1, -1, 3);
    assert_eq!(comp.segment_pos, 2);
    comp.update_scroll(1, 1, 3);
    assert_eq!(comp.segment_pos, 1);
}

#[test]
fn title_component_counts_finished_attempts() {
    let mut run = run_with(&["A"]);
    run.attempt_count = 5;
    run.attempt_history = vec![true, false, true, true, false];
    let t = TitleComponent::new(&run, &TitleComponentConfig::default());
    assert_eq!(t.attempt_string, "3/5");
    assert_eq!(t.game_name, "Game");
    assert_eq!(t.cat_name, "Any%");
}

#[test]
fn component_labels_and_default_layout() {
    let cfg = TimerConfig::default();
    assert_eq!(cfg.components.len(), 3);
    assert_eq!(cfg.components[0].label(), "Title");
    assert_eq!(cfg.components[1].label(), "Splits");
    assert_eq!(cfg.components[2].label(), "Timer");
    let run = get_default_run();
    let comps = reload_components(&run, &cfg);
    assert_eq!(comps.len(), 3);
    assert!(matches!(comps[0], ComponentInstance::Title(_)));
    assert!(matches!(comps[1], ComponentInstance::Splits(_)));
    assert!(matches!(comps[2], ComponentInstance::Timer(_)));
    let _ = TimerComponentConfig::new(Accuracy::Milliseconds);
}

#[test]
fn menu_requests_edit_state_and_report_actions() {
    let mut gc = GlobalConfig::default();
    let mut tc = TimerConfig::default();
    let mut run = Some(run_with(&["A", "B", "C"]));

    let act = apply_update_request(&mut gc, &mut tc, &mut run, UpdateRequest::LoadProfile(
        "profile.zip".to_owned(),
    ));
    assert!(matches!(act, HostAction::PersistGlobalConfig));
    assert_eq!(gc.active_profile.as_deref(), Some("profile.zip"));

    let act = apply_update_request(&mut gc, &mut tc, &mut run, UpdateRequest::AddKnownDirectory(
        "/tmp/runs".to_owned(),
    ));
    assert!(matches!(act, HostAction::PersistGlobalConfig));
    // Adding the same directory again changes nothing.
    let act = apply_update_request(&mut gc, &mut tc, &mut run, UpdateRequest::AddKnownDirectory(
        "/tmp/runs".to_owned(),
    ));
    assert!(matches!(act, HostAction::Nothing));
    assert_eq!(gc.known_directories.len(), 1);
    let act = apply_update_request(
        &mut gc,
        &mut tc,
        &mut run,
        UpdateRequest::RemoveKnownDirectory(0),
    );
    assert!(matches!(act, HostAction::PersistGlobalConfig));
    assert!(gc.known_directories.is_empty());

    apply_update_request(&mut gc, &mut tc, &mut run, UpdateRequest::MoveComponentDown(0));
    assert!(matches!(tc.components[0], TimerComponentType::SplitComponent(_)));
    assert!(matches!(tc.components[1], TimerComponentType::TitleComponent(_)));
    apply_update_request(&mut gc, &mut tc, &mut run, UpdateRequest::MoveComponentUp(1));
    assert!(matches!(tc.components[0], TimerComponentType::TitleComponent(_)));
    apply_update_request(&mut gc, &mut tc, &mut run, UpdateRequest::RemoveComponent(2));
    assert_eq!(tc.components.len(), 2);

    apply_update_request(&mut gc, &mut tc, &mut run, UpdateRequest::MoveSegmentDown(0));
    let names = &run.as_ref().unwrap().segment_names;
    assert_eq!(names, &vec!["B".to_owned(), "A".to_owned(), "C".to_owned()]);
    apply_update_request(&mut gc, &mut tc, &mut run, UpdateRequest::RemoveSegment(1));
    let names = &run.as_ref().unwrap().segment_names;
    assert_eq!(names, &vec!["B".to_owned(), "C".to_owned()]);

    let act = apply_update_request(&mut gc, &mut tc, &mut run, UpdateRequest::ClearHotkey(
        HotkeyAction::Reset,
    ));
    assert!(matches!(act, HostAction::UnbindHotkey(HotkeyAction::Reset)));
}

#[test]
fn hotkey_bindings_bind_lookup_and_remove() {
    let mut b = HotkeyBindings::new();
    // An unparseable key string binds nothing.
    assert!(b.bind_key("NoSuchKey".to_owned(), HotkeyAction::Pause, None).is_err());
    assert!(b.get_hotkey_string(HotkeyAction::Pause).is_none());

    assert!(b.bind_key("Numpad1".to_owned(), HotkeyAction::StartSplit, Some(41)).is_ok());
    assert!(b.bind_key("Numpad2".to_owned(), HotkeyAction::Reset, Some(42)).is_ok());
    assert_eq!(b.get_hotkey_string(HotkeyAction::StartSplit).as_deref(), Some("Numpad1"));
    assert_eq!(b.lookup_key(42), Some(HotkeyAction::Reset));
    assert_eq!(b.lookup_key(77), None);

    // Rebinding replaces in place.
    assert!(b.bind_key("Numpad3".to_owned(), HotkeyAction::StartSplit, Some(43)).is_ok());
    assert_eq!(b.get_hotkey_string(HotkeyAction::StartSplit).as_deref(), Some("Numpad3"));

    // Removal reports failure on every path — its callers discard the
    // result — but the binding is gone all the same; the key string for the
    // hook is read out beforehand.
    let for_hook = b.get_hotkey_string(HotkeyAction::StartSplit);
    assert_eq!(for_hook.as_deref(), Some("Numpad3"));
    assert!(b.remove_key(HotkeyAction::StartSplit).is_err());
    assert!(b.get_hotkey_string(HotkeyAction::StartSplit).is_none());
    assert!(b.remove_key(HotkeyAction::StartSplit).is_err());
}

#[test]
fn press_slot_delivers_each_press_at_most_once() {
    let mut slot = PressSlot::new();
    assert_eq!(slot.take_press(), None);
    slot.record(HotkeyAction::Pause);
    // A newer press replaces an undelivered one.
    slot.record(HotkeyAction::StartSplit);
    assert_eq!(slot.take_press(), Some(HotkeyAction::StartSplit));
    // Delivered means consumed.
    assert_eq!(slot.take_press(), None);
}

#[test]
fn hotkey_labels_match_the_menu() {
    assert_eq!(HotkeyAction::StartSplit.label(), "Start/Split");
    assert_eq!(HotkeyAction::ToggleTimingMethod.label(), "Toggle Timing Method (Switches IGT/RTA)");
}

#[test]
fn default_run_is_the_placeholder() {
    let run = get_default_run();
    assert_eq!(run.game_name, "Game");
    assert_eq!(run.category_name, "Any%");
    assert_eq!(run.segment_names, vec!["Time".to_owned()]);
    assert_eq!(run.attempt_count, 0);
    let _ = TimerModel::new(run.segment_names.len());
}

#[test]
fn assembled_rows_center_on_the_current_segment() {
    let run = run_with(&["Intro", "-A", "-B", "{Mid} C", "Outro"]);
    let cfg = SplitComponentConfig::default();
    let mut comp = SplitComponent::new(&run, &cfg);
    // Timer is on segment 1 ("-A"), where the subsplit group starts.
    comp.update_scroll(1, 0, 5);
    let (rows, rel) = comp.assemble_rows();
    // Group headers: "Intro", "Mid", "Outro"; the current group adds its
    // own header row plus its three member rows.
    assert_eq!(rows.len(), 3 + 4);
    assert_eq!(rows[0].name, "Intro");
    assert_eq!(rows[1].name, "Mid");
    assert_eq!(rows[rel].comparison_index, 1);
    assert_eq!(rows[rel].name, "A");
    assert_eq!(rows.last().unwrap().name, "Outro");
    let (start, end, _) = visible_window(rows.len(), rel, &cfg);
    assert!(start <= rel && rel <= end && end < rows.len());
}

#[test]
fn scalar_and_nested_values_are_told_apart() {
    assert!(SettingValue::Bool(true).is_scalar());
    assert!(SettingValue::Str("x".to_owned()).is_scalar());
    assert!(!SettingValue::MapValue(SettingsMap::new()).is_scalar());
    assert!(!SettingValue::ListValue(Vec::new()).is_scalar());
    assert_eq!(SettingValue::Bool(true).to_bool(), Some(true));
    assert_eq!(SettingValue::I64(1).to_bool(), None);
}

#[test]
fn delta_cells_follow_the_phase_and_comparison() {
    let cfg = SplitComponentConfig::default();
    let run = run_with(&["A", "B", "C"]);
    let row = SplitRenderer::from_run_index(&run, 1);

    // Rows past the current segment stay empty while running.
    let cell = row.delta_cell(&cfg, TimerPhase::Running, Some(0), Some(5_000), None, Some(4_000), None, None);
    assert_eq!(cell, DeltaCell::Empty);
    // The current row shows a plain delta once behind the comparison.
    let cell = row.delta_cell(&cfg, TimerPhase::Running, Some(1), Some(9_000), None, Some(8_000), None, None);
    assert_eq!(cell, DeltaCell::PlainDelta(1_000));
    // ... and stays empty while still ahead of it and under the best.
    let cell = row.delta_cell(&cfg, TimerPhase::Running, Some(1), Some(7_000), None, Some(8_000), None, None);
    assert_eq!(cell, DeltaCell::Empty);
    // A finished row colors its delta.
    let cell = row.delta_cell(
        &cfg, TimerPhase::Running, Some(2), None, Some(9_000), Some(8_000), Some(2_000), Some(500),
    );
    assert_eq!(cell, DeltaCell::ColoredDelta(1_000, cfg.behind_losing_color));
    // No comparison: dashes.
    let cell = row.delta_cell(&cfg, TimerPhase::Running, Some(2), None, Some(9_000), None, None, None);
    assert_eq!(cell, DeltaCell::Dashes);
    // After the run ended, a row ahead of both comparison and best shows
    // nothing.
    let cell = row.delta_cell(&cfg, TimerPhase::Ended, None, None, Some(7_000), Some(8_000), Some(9_000), None);
    assert_eq!(cell, DeltaCell::Empty);
    // Idle timer: nothing.
    let cell = row.delta_cell(&cfg, TimerPhase::NotRunning, None, None, None, Some(1), None, None);
    assert_eq!(cell, DeltaCell::Empty);
}
