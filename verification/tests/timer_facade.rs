use dead_split::facade::{TimerBox, TimerCall};
use dead_split::timer::{TimerModel, TimerPhase};

#[test]
fn facade_phases_match_direct_timer_phases() {
    // The same call sequence, once through the facade, once directly.
    let calls = vec![
        TimerCall::Start,
        TimerCall::SetGameTime((1.5f64).to_bits()),
        TimerCall::Split,
        TimerCall::PauseGameTime,
        TimerCall::Split,
        TimerCall::UndoSplit,
        TimerCall::Split,
        TimerCall::Split,
        TimerCall::Reset,
        TimerCall::Start,
    ];
    let mut boxed = TimerBox::new(TimerModel::new(3));
    let mut direct = TimerModel::new(3);
    for c in &calls {
        boxed.handle_call(c);
        direct.apply_call(c);
        assert_eq!(boxed.state(), direct.phase);
        assert_eq!(boxed.timer.current_split_index, direct.current_split_index);
    }
}

#[test]
fn start_split_through_all_segments_ends_the_attempt() {
    let mut b = TimerBox::new(TimerModel::new(2));
    assert_eq!(b.state(), TimerPhase::NotRunning);
    b.start();
    assert_eq!(b.state(), TimerPhase::Running);
    assert_eq!(b.timer.current_split_index, Some(0));
    b.split();
    assert_eq!(b.timer.current_split_index, Some(1));
    b.split();
    assert_eq!(b.state(), TimerPhase::Ended);
    assert_eq!(b.timer.current_split_index, None);
}

#[test]
fn skip_split_never_ends_the_attempt() {
    let mut b = TimerBox::new(TimerModel::new(2));
    b.start();
    b.skip_split();
    assert_eq!(b.timer.current_split_index, Some(1));
    // The last segment cannot be skipped.
    b.skip_split();
    assert_eq!(b.timer.current_split_index, Some(1));
    assert_eq!(b.state(), TimerPhase::Running);
}

#[test]
fn undo_split_reopens_an_ended_attempt() {
    let mut b = TimerBox::new(TimerModel::new(2));
    b.start();
    b.split();
    b.split();
    assert_eq!(b.state(), TimerPhase::Ended);
    b.undo_split();
    assert_eq!(b.state(), TimerPhase::Running);
    assert_eq!(b.timer.current_split_index, Some(1));
}

#[test]
fn reset_is_a_full_reset() {
    let mut b = TimerBox::new(TimerModel::new(3));
    b.start();
    b.set_game_time((9.0f64).to_bits());
    b.pause_game_time();
    b.split();
    b.reset();
    assert_eq!(b.state(), TimerPhase::NotRunning);
    assert_eq!(b.timer.current_split_index, None);
    assert_eq!(b.timer.game_time_bits, 0);
    assert!(!b.timer.game_time_paused);
}

#[test]
fn start_is_ignored_while_running() {
    let mut b = TimerBox::new(TimerModel::new(3));
    b.start();
    b.split();
    b.start();
    assert_eq!(b.timer.current_split_index, Some(1));
}

#[test]
fn game_time_pause_and_resume_do_not_change_the_phase() {
    let mut b = TimerBox::new(TimerModel::new(2));
    b.start();
    b.pause_game_time();
    assert!(b.timer.game_time_paused);
    assert_eq!(b.state(), TimerPhase::Running);
    b.resume_game_time();
    assert!(!b.timer.game_time_paused);
    assert_eq!(b.state(), TimerPhase::Running);
}

#[test]
fn set_variable_upserts_and_keeps_order() {
    let mut b = TimerBox::new(TimerModel::new(2));
    b.set_variable(&"area".to_owned(), "forest".to_owned());
    b.set_variable(&"boss".to_owned(), "first".to_owned());
    b.set_variable(&"area".to_owned(), "cave".to_owned());
    assert_eq!(b.timer.variables.len(), 2);
    assert_eq!(b.timer.variables[0], ("area".to_owned(), "cave".to_owned()));
    assert_eq!(b.timer.variables[1], ("boss".to_owned(), "first".to_owned()));
    // An empty key passes through silently, like any other.
    b.set_variable(&"".to_owned(), "x".to_owned());
    assert_eq!(b.timer.variables.len(), 3);
}

#[test]
fn display_fields_for_the_frontend() {
    let mut t = TimerModel::new(2);
    assert_eq!(t.phase_code(), 0);
    assert_eq!(t.split_index_display(), -1);
    t.start();
    assert_eq!(t.phase_code(), 1);
    assert_eq!(t.split_index_display(), 0);
    t.pause();
    assert_eq!(t.phase_code(), 3);
    t.resume();
    t.split();
    t.split();
    assert_eq!(t.phase_code(), 2);
    assert_eq!(t.split_index_display(), -1);
}
