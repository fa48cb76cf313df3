use catz::events::{handle_key_events, KeyInput};
use catz::process::ProcessInfo;
use catz::state::{AppMode, AppState};

fn table(entries: &[(u64, &str)]) -> Vec<(u64, String)> {
    let mut t: Vec<(u64, String)> = Vec::new();
    for (pid, name) in entries {
        t.push((*pid, String::from(*name)));
    }
    t
}

fn sample(name: &str, pid: u64) -> ProcessInfo {
    ProcessInfo::new(String::from(name), pid, 0, 0)
}

#[test]
fn initial_state() {
    let mut state = AppState::new(2);
    assert_eq!(state.mode, AppMode::Normal);
    assert!(!state.should_quit);
    assert_eq!(state.input_buffer, "");
    assert_eq!(state.save_filename, "");
    assert!(state.candidate_processes.is_empty());
    assert_eq!(state.selected_process, 0);
    assert_eq!(state.selected_monitored_process, 0);
    assert_eq!(state.interval_ms, 2000);
    assert_eq!(state.last_tick_ms, 0);
    assert!(state.stats_data.is_empty());
    assert!(state.process_manager().get_monitored_processes().is_empty());
}

#[test]
fn quit_key_sets_flag() {
    let t = table(&[]);
    let mut state = AppState::new(1);
    handle_key_events(KeyInput::Char('q'), &mut state, &t);
    assert!(state.should_quit);
    assert_eq!(state.mode, AppMode::Normal);
}

#[test]
fn esc_quits_from_stats() {
    let t = table(&[]);
    let mut state = AppState::new(1);
    handle_key_events(KeyInput::Char('s'), &mut state, &t);
    assert_eq!(state.mode, AppMode::Stats);
    handle_key_events(KeyInput::Esc, &mut state, &t);
    assert!(state.should_quit);
    assert_eq!(state.mode, AppMode::Stats);
}

#[test]
fn typing_and_backspace_edit_pattern_buffer() {
    let t = table(&[]);
    let mut state = AppState::new(1);
    handle_key_events(KeyInput::Char('a'), &mut state, &t);
    assert_eq!(state.mode, AppMode::InputPattern);
    handle_key_events(KeyInput::Char('a'), &mut state, &t);
    handle_key_events(KeyInput::Char('b'), &mut state, &t);
    handle_key_events(KeyInput::Char('c'), &mut state, &t);
    assert_eq!(state.input_buffer, "abc");
    handle_key_events(KeyInput::Backspace, &mut state, &t);
    assert_eq!(state.input_buffer, "ab");
    handle_key_events(KeyInput::Backspace, &mut state, &t);
    handle_key_events(KeyInput::Backspace, &mut state, &t);
    handle_key_events(KeyInput::Backspace, &mut state, &t);
    assert_eq!(state.input_buffer, "");
}

#[test]
fn cancel_leaves_input_mode() {
    let t = table(&[(1, "sh")]);
    let mut state = AppState::new(1);
    handle_key_events(KeyInput::Char('a'), &mut state, &t);
    handle_key_events(KeyInput::Char('s'), &mut state, &t);
    handle_key_events(KeyInput::Esc, &mut state, &t);
    assert_eq!(state.mode, AppMode::Normal);
    assert_eq!(state.input_buffer, "");
    assert!(state.candidate_processes.is_empty());
    assert_eq!(state.selected_process, 0);
    assert!(!state.should_quit);
}

#[test]
fn empty_pattern_is_not_searched() {
    let t = table(&[(1, "sh")]);
    let mut state = AppState::new(1);
    handle_key_events(KeyInput::Char('a'), &mut state, &t);
    handle_key_events(KeyInput::Enter, &mut state, &t);
    assert_eq!(state.mode, AppMode::InputPattern);
    assert!(state.candidate_processes.is_empty());
}

#[test]
fn no_match_stays_in_input_mode() {
    let t = table(&[(1, "sh"), (2, "bash")]);
    let mut state = AppState::new(1);
    handle_key_events(KeyInput::Char('a'), &mut state, &t);
    handle_key_events(KeyInput::Char('z'), &mut state, &t);
    handle_key_events(KeyInput::Enter, &mut state, &t);
    assert_eq!(state.mode, AppMode::InputPattern);
    assert!(state.candidate_processes.is_empty());
}

#[test]
fn selection_stays_in_range_under_up_down() {
    let t = table(&[(1, "sh"), (2, "ssh"), (3, "bash")]);
    let mut state = AppState::new(1);
    handle_key_events(KeyInput::Char('a'), &mut state, &t);
    handle_key_events(KeyInput::Char('s'), &mut state, &t);
    handle_key_events(KeyInput::Char('h'), &mut state, &t);
    handle_key_events(KeyInput::Enter, &mut state, &t);
    assert_eq!(state.mode, AppMode::SelectProcess);
    assert_eq!(state.candidate_processes.len(), 3);
    assert_eq!(state.selected_process, 0);
    // No wraparound below zero.
    handle_key_events(KeyInput::Up, &mut state, &t);
    assert_eq!(state.selected_process, 0);
    // Clamped at the last index.
    for _ in 0..10 {
        handle_key_events(KeyInput::Down, &mut state, &t);
        assert!(state.selected_process < state.candidate_processes.len());
    }
    assert_eq!(state.selected_process, 2);
    handle_key_events(KeyInput::Up, &mut state, &t);
    assert_eq!(state.selected_process, 1);
}

#[test]
fn removing_only_monitored_process_resets_selection() {
    let t = table(&[]);
    let mut state = AppState::new(1);
    state.process_manager().add_process(String::from("sh"), 7);
    assert_eq!(state.process_manager().get_monitored_processes().len(), 1);
    handle_key_events(KeyInput::Char('d'), &mut state, &t);
    assert!(state.process_manager().get_monitored_processes().is_empty());
    assert_eq!(state.selected_monitored_process, 0);
}

#[test]
fn delete_out_of_range_is_a_no_op() {
    let t = table(&[]);
    let mut state = AppState::new(1);
    state.process_manager().add_process(String::from("sh"), 7);
    state.process_manager().add_process(String::from("ssh"), 8);
    state.selected_monitored_process = 0;
    state.process_manager().remove_process(5);
    assert_eq!(state.process_manager().get_monitored_processes().len(), 2);
    handle_key_events(KeyInput::Char('d'), &mut state, &t);
    assert_eq!(state.process_manager().get_monitored_processes().len(), 1);
    assert_eq!(state.process_manager().get_monitored_processes()[0].1, 8);
}

#[test]
fn monitored_selection_moves_and_clamps() {
    let t = table(&[]);
    let mut state = AppState::new(1);
    let samples = vec![sample("sh", 1), sample("ssh", 2), sample("bash", 3)];
    state.update_processes(samples);
    assert_eq!(state.selected_monitored_process, 0);
    handle_key_events(KeyInput::Up, &mut state, &t);
    assert_eq!(state.selected_monitored_process, 0);
    handle_key_events(KeyInput::Down, &mut state, &t);
    handle_key_events(KeyInput::Down, &mut state, &t);
    handle_key_events(KeyInput::Down, &mut state, &t);
    assert_eq!(state.selected_monitored_process, 2);
    // Shrinking the sample list clamps the selection.
    state.update_processes(vec![sample("sh", 1)]);
    assert_eq!(state.selected_monitored_process, 0);
    state.update_processes(Vec::new());
    assert_eq!(state.selected_monitored_process, 0);
}

#[test]
fn up_down_ignored_with_no_samples() {
    let t = table(&[]);
    let mut state = AppState::new(1);
    handle_key_events(KeyInput::Down, &mut state, &t);
    assert_eq!(state.selected_monitored_process, 0);
    handle_key_events(KeyInput::Up, &mut state, &t);
    assert_eq!(state.selected_monitored_process, 0);
}

#[test]
fn processes_view_follows_updates() {
    let mut state = AppState::new(1);
    assert!(state.processes().is_empty());
    state.update_processes(vec![sample("sh", 1), sample("bash", 2)]);
    let view = state.processes();
    assert_eq!(view.len(), 2);
    assert_eq!(view[0].name, "sh");
    assert_eq!(view[1].pid, 2);
}

#[test]
fn suffix_test_is_exact() {
    assert!(catz::text::ends_with("out.csv", ".csv"));
    assert!(catz::text::ends_with(".csv", ".csv"));
    assert!(!catz::text::ends_with("csv", ".csv"));
    assert!(!catz::text::ends_with("out.csv ", ".csv"));
    assert!(!catz::text::ends_with("", ".csv"));
    assert!(catz::text::ends_with("anything", ""));
}

#[test]
fn tick_updates_last_tick() {
    let mut state = AppState::new(1);
    state.tick(12345);
    assert_eq!(state.last_tick_ms, 12345);
}

#[test]
fn stats_only_grow_in_stats_mode() {
    let mut state = AppState::new(1);
    assert_eq!(state.mode, AppMode::Normal);
    state.add_stats(sample("sh", 1));
    assert!(state.stats_data.is_empty());
    state.mode = AppMode::Stats;
    state.add_stats(sample("sh", 1));
    state.add_stats(sample("sh", 1));
    state.add_stats(sample("bash", 2));
    assert_eq!(state.stats_data.len(), 2);
    assert_eq!(state.stats_data[0].0, "sh");
    assert_eq!(state.stats_data[0].1.len(), 2);
    assert_eq!(state.stats_data[1].0, "bash");
    assert_eq!(state.stats_data[1].1.len(), 1);
}
