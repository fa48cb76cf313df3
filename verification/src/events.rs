//! The event dispatcher: interprets one key event against the current mode
//! and produces the next state, plus at most one effect — a confirmed CSV
//! export for the surrounding loop to write.
//!
//! The whole transition table is the specification [`step_spec`]; the
//! executable dispatcher [`handle_key_events`] is proved to follow it
//! exactly, and every reachable state stays well-formed.

use vstd::prelude::*;
use vstd::string::*;
use crate::csv::{csv_of_stats, stats_to_csv};
use crate::process::{matching_entries, ProcessManager};
use crate::state::{clamp_sel, wf_state, AppMode, AppState, StateModel};
use crate::text::{ends_with, pop_char, push_char, seq_ends_with};

verus! {

/// One key event, as the surrounding loop reports it.
#[derive(Debug, Clone, Copy, PartialEq, Eq, Structural)]
pub enum KeyInput {
    /// A printable character was typed.
    Char(char),
    Backspace,
    Enter,
    Esc,
    Up,
    Down,
}

/// A confirmed export: the file name the user typed and the CSV text to
/// write. Performing the write — and swallowing its outcome — is the
/// surrounding loop's doing.
pub struct CsvExport {
    pub filename: String,
    pub content: String,
}

impl View for CsvExport {
    type V = (Seq<char>, Seq<char>);

    open spec fn view(&self) -> (Seq<char>, Seq<char>) {
        (self.filename@, self.content@)
    }
}

impl DeepView for CsvExport {
    type V = (Seq<char>, Seq<char>);

    open spec fn deep_view(&self) -> (Seq<char>, Seq<char>) {
        self@
    }
}

/// The names of the matched entries, in order.
pub open spec fn entry_names(entries: Seq<(u64, Seq<char>)>) -> Seq<Seq<char>> {
    Seq::new(entries.len(), |i: int| entries[i].1)
}

/// The PID of the first entry carrying `name`, if any.
pub open spec fn first_pid_with_name(entries: Seq<(u64, Seq<char>)>, name: Seq<char>) -> Option<
    u64,
>
    decreases entries.len(),
{
    if entries.len() == 0 {
        None
    } else if entries.first().1 == name {
        Some(entries.first().0)
    } else {
        first_pid_with_name(entries.drop_first(), name)
    }
}

/// Confirming the save prompt: a filename with the expected extension
/// exports the recorded history and returns to normal mode with the
/// filename and the history cleared; any other filename gets an inline
/// hint appended and the prompt stays.
pub open spec fn step_save_confirm(m: StateModel) -> (StateModel, Option<(Seq<char>, Seq<char>)>) {
    if seq_ends_with(m.save_filename, ".csv"@) {
        (
            StateModel {
                mode: AppMode::Normal,
                save_filename: Seq::empty(),
                stats_data: Seq::empty(),
                ..m
            },
            Some((m.save_filename, csv_of_stats(m.stats_data))),
        )
    } else {
        (StateModel { save_filename: m.save_filename + " (must end with .csv)"@, ..m }, None)
    }
}

/// Confirming a selection: the chosen candidate is resolved against the
/// matches of the pattern that produced the candidates, and on success appended to the
/// monitored set; either way the search state is cleared.
pub open spec fn step_confirm_selection(m: StateModel, table: Seq<(u64, Seq<char>)>) -> StateModel {
    let base = StateModel {
        mode: AppMode::Normal,
        input_buffer: Seq::empty(),
        candidate_processes: Seq::empty(),
        selected_process: 0,
        ..m
    };
    if (m.selected_process as nat) < m.candidate_processes.len() {
        let name = m.candidate_processes[m.selected_process as int];
        match first_pid_with_name(matching_entries(m.input_buffer, table), name) {
            Option::Some(pid) => StateModel { monitored: m.monitored.push((name, pid)), ..base },
            Option::None => base,
        }
    } else {
        base
    }
}

/// Running the pattern search: a non-empty pattern with at least one match
/// stores the matched names and enters selection mode at index zero; with
/// no match the (empty) candidate list is stored and the mode stays.
pub open spec fn step_search(m: StateModel, table: Seq<(u64, Seq<char>)>) -> StateModel {
    if m.input_buffer.len() > 0 {
        let names = entry_names(matching_entries(m.input_buffer, table));
        if names.len() > 0 {
            StateModel {
                mode: AppMode::SelectProcess,
                candidate_processes: names,
                selected_process: 0,
                ..m
            }
        } else {
            StateModel { candidate_processes: names, ..m }
        }
    } else {
        m
    }
}

/// The transition table: what one key event does to the state, and the
/// export it may produce. Events that no row covers leave the state alone.
pub open spec fn step_spec(m: StateModel, key: KeyInput, table: Seq<(u64, Seq<char>)>) -> (
    StateModel,
    Option<(Seq<char>, Seq<char>)>,
) {
    match (key, m.mode) {
        (KeyInput::Char('q'), AppMode::SavePrompt) | (KeyInput::Esc, AppMode::SavePrompt) => (
            StateModel { mode: AppMode::Stats, save_filename: Seq::empty(), ..m },
            None,
        ),
        (KeyInput::Char('q'), AppMode::InputPattern) | (KeyInput::Esc, AppMode::InputPattern) | (
            KeyInput::Char('q'),
            AppMode::SelectProcess,
        ) | (KeyInput::Esc, AppMode::SelectProcess) => (
            StateModel {
                mode: AppMode::Normal,
                input_buffer: Seq::empty(),
                candidate_processes: Seq::empty(),
                selected_process: 0,
                ..m
            },
            None,
        ),
        (KeyInput::Char('q'), _) | (KeyInput::Esc, _) => (
            StateModel { should_quit: true, ..m },
            None,
        ),
        (KeyInput::Char('a'), AppMode::Normal) => (
            StateModel { mode: AppMode::InputPattern, input_buffer: Seq::empty(), ..m },
            None,
        ),
        (KeyInput::Char('s'), AppMode::Normal) => (
            StateModel { mode: AppMode::Stats, stats_data: Seq::empty(), ..m },
            None,
        ),
        (KeyInput::Char('s'), AppMode::Stats) => (
            StateModel { mode: AppMode::SavePrompt, save_filename: Seq::empty(), ..m },
            None,
        ),
        (KeyInput::Char('d'), AppMode::Normal) => {
            let monitored = if (m.selected_monitored_process as nat) < m.monitored.len() {
                m.monitored.remove(m.selected_monitored_process as int)
            } else {
                m.monitored
            };
            (
                StateModel {
                    monitored,
                    selected_monitored_process: clamp_sel(
                        m.selected_monitored_process,
                        m.samples.len(),
                    ),
                    ..m
                },
                None,
            )
        },
        (KeyInput::Char(c), AppMode::SavePrompt) => (
            StateModel { save_filename: m.save_filename.push(c), ..m },
            None,
        ),
        (KeyInput::Char(c), AppMode::InputPattern) => (
            StateModel { input_buffer: m.input_buffer.push(c), ..m },
            None,
        ),
        (KeyInput::Backspace, AppMode::SavePrompt) => (
            StateModel {
                save_filename: if m.save_filename.len() > 0 {
                    m.save_filename.drop_last()
                } else {
                    m.save_filename
                },
                ..m
            },
            None,
        ),
        (KeyInput::Backspace, AppMode::InputPattern) => (
            StateModel {
                input_buffer: if m.input_buffer.len() > 0 {
                    m.input_buffer.drop_last()
                } else {
                    m.input_buffer
                },
                ..m
            },
            None,
        ),
        (KeyInput::Enter, AppMode::SavePrompt) => step_save_confirm(m),
        (KeyInput::Enter, AppMode::SelectProcess) => (step_confirm_selection(m, table), None),
        (KeyInput::Enter, AppMode::InputPattern) => (step_search(m, table), None),
        (KeyInput::Up, AppMode::SelectProcess) => (
            StateModel {
                selected_process: if m.selected_process > 0 {
                    (m.selected_process - 1) as usize
                } else {
                    m.selected_process
                },
                ..m
            },
            None,
        ),
        (KeyInput::Up, AppMode::Normal) => (
            StateModel {
                selected_monitored_process: if m.samples.len() > 0
                    && m.selected_monitored_process > 0 {
                    (m.selected_monitored_process - 1) as usize
                } else {
                    m.selected_monitored_process
                },
                ..m
            },
            None,
        ),
        (KeyInput::Down, AppMode::SelectProcess) => (
            StateModel {
                selected_process: if m.selected_process + 1 < m.candidate_processes.len() {
                    (m.selected_process + 1) as usize
                } else {
                    m.selected_process
                },
                ..m
            },
            None,
        ),
        (KeyInput::Down, AppMode::Normal) => (
            StateModel {
                selected_monitored_process: if m.samples.len() > 0 && m.selected_monitored_process
                    + 1 < m.samples.len() {
                    (m.selected_monitored_process + 1) as usize
                } else {
                    m.selected_monitored_process
                },
                ..m
            },
            None,
        ),
        _ => (m, None),
    }
}

proof fn lemma_first_pid_skip(entries: Seq<(u64, Seq<char>)>, name: Seq<char>, i: int)
    requires
        0 <= i <= entries.len(),
        forall|k: int| 0 <= k < i ==> entries[k].1 != name,
    ensures
        first_pid_with_name(entries, name) == first_pid_with_name(entries.skip(i), name),
    decreases i,
{
    if i == 0 {
        assert(entries.skip(0) =~= entries);
    } else {
        lemma_first_pid_skip(entries, name, i - 1);
        assert(entries.skip(i - 1).first() == entries[i - 1]);
        assert(entries.skip(i - 1).drop_first() =~= entries.skip(i));
    }
}

/// Interprets one key event against the current mode, following
/// [`step_spec`] row by row; returns the confirmed export, if this event
/// produced one. `table` is the current `(pid, name)` process table, used
/// by the pattern search and the selection confirm.
pub fn handle_key_events(key_event: KeyInput, state: &mut AppState, table: &Vec<(u64, String)>) -> (action: Option<CsvExport>)
    requires
        old(state).wf(),
    ensures
        final(state)@ == step_spec(old(state)@, key_event, table.deep_view()).0,
        action.deep_view() == step_spec(old(state)@, key_event, table.deep_view()).1,
        final(state).wf(),
{
    let ghost m0 = old(state)@;
    let ghost tdv = table.deep_view();
    let action: Option<CsvExport> = match (key_event, state.mode) {
        (KeyInput::Char('q'), AppMode::SavePrompt) | (KeyInput::Esc, AppMode::SavePrompt) => {
            state.mode = AppMode::Stats;
            state.save_filename = String::new();
            proof {
                assert(state@ =~~= step_spec(m0, key_event, tdv).0);
            }
            None
        },
        (KeyInput::Char('q'), AppMode::InputPattern) | (KeyInput::Esc, AppMode::InputPattern) | (
            KeyInput::Char('q'),
            AppMode::SelectProcess,
        ) | (KeyInput::Esc, AppMode::SelectProcess) => {
            state.cancel_input();
            proof {
                assert(state@ =~~= step_spec(m0, key_event, tdv).0);
            }
            None
        },
        (KeyInput::Char('q'), _) | (KeyInput::Esc, _) => {
            state.should_quit = true;
            proof {
                assert(state@ =~~= step_spec(m0, key_event, tdv).0);
            }
            None
        },
        (KeyInput::Char('a'), AppMode::Normal) => {
            state.mode = AppMode::InputPattern;
            state.input_buffer = String::new();
            proof {
                assert(state@ =~~= step_spec(m0, key_event, tdv).0);
            }
            None
        },
        (KeyInput::Char('s'), AppMode::Normal) => {
            state.mode = AppMode::Stats;
            state.clear_stats();
            proof {
                assert(state@ =~~= step_spec(m0, key_event, tdv).0);
            }
            None
        },
        (KeyInput::Char('s'), AppMode::Stats) => {
            state.mode = AppMode::SavePrompt;
            state.save_filename = String::new();
            proof {
                assert(state@ =~~= step_spec(m0, key_event, tdv).0);
            }
            None
        },
        (KeyInput::Char('d'), AppMode::Normal) => {
            let selected = state.selected_monitored_process;
            state.process_manager.remove_process(selected);
            let samples_len = state.process_manager.get_current_processes().len();
            if samples_len == 0 {
                state.selected_monitored_process = 0;
            } else if state.selected_monitored_process >= samples_len {
                state.selected_monitored_process = samples_len - 1;
            }
            proof {
                assert(state@ =~~= step_spec(m0, key_event, tdv).0);
            }
            None
        },
        (KeyInput::Char(c), AppMode::SavePrompt) => {
            push_char(&mut state.save_filename, c);
            proof {
                assert(state@ =~~= step_spec(m0, key_event, tdv).0);
            }
            None
        },
        (KeyInput::Char(c), AppMode::InputPattern) => {
            push_char(&mut state.input_buffer, c);
            proof {
                assert(state@ =~~= step_spec(m0, key_event, tdv).0);
            }
            None
        },
        (KeyInput::Backspace, AppMode::SavePrompt) => {
            let _ = pop_char(&mut state.save_filename);
            proof {
                assert(state@ =~~= step_spec(m0, key_event, tdv).0);
            }
            None
        },
        (KeyInput::Backspace, AppMode::InputPattern) => {
            let _ = pop_char(&mut state.input_buffer);
            proof {
                assert(state@ =~~= step_spec(m0, key_event, tdv).0);
            }
            None
        },
        (KeyInput::Enter, AppMode::SavePrompt) => {
            if ends_with(state.save_filename.as_str(), ".csv") {
                let content = stats_to_csv(&state.stats_data);
                let filename = state.save_filename.clone();
                state.mode = AppMode::Normal;
                state.save_filename = String::new();
                state.clear_stats();
                proof {
                    assert(state@ =~~= step_spec(m0, key_event, tdv).0);
                }
                Some(CsvExport { filename, content })
            } else {
                state.save_filename.append(" (must end with .csv)");
                proof {
                    assert(state@ =~~= step_spec(m0, key_event, tdv).0);
                }
                None
            }
        },
        (KeyInput::Enter, AppMode::SelectProcess) => {
            if state.selected_process < state.candidate_processes.len() {
                let selected_name = state.candidate_processes[state.selected_process].clone();
                let ghost sn = selected_name@;
                let matches_vec = ProcessManager::find_matching_processes(
                    state.input_buffer.as_str(),
                    table,
                );
                let ghost mdv = matches_vec.deep_view();
                let mut pid_found: Option<u64> = None;
                let mut j: usize = 0;
                while j < matches_vec.len() && pid_found.is_none()
                    invariant
                        j <= matches_vec.len(),
                        mdv == matches_vec.deep_view(),
                        mdv.len() == matches_vec.len(),
                        sn == selected_name@,
                        match pid_found {
                            Option::None => forall|k: int| 0 <= k < j ==> mdv[k].1 != sn,
                            Option::Some(p) => first_pid_with_name(mdv, sn) == Some(p),
                        },
                    decreases matches_vec.len() - j,
                {
                    proof {
                        assert(mdv[j as int] == (matches_vec[j as int].0, matches_vec[j as int].1@));
                    }
                    if matches_vec[j].1 == selected_name {
                        pid_found = Some(matches_vec[j].0);
                        proof {
                            lemma_first_pid_skip(mdv, sn, j as int);
                            assert(mdv.skip(j as int).first() == mdv[j as int]);
                        }
                    }
                    j += 1;
                }
                proof {
                    if pid_found is None {
                        lemma_first_pid_skip(mdv, sn, mdv.len() as int);
                        assert(mdv.skip(mdv.len() as int) =~= Seq::empty());
                    }
                }
                match pid_found {
                    Option::Some(pid) => {
                        state.process_manager.add_process(selected_name, pid);
                    },
                    Option::None => {},
                }
            }
            state.mode = AppMode::Normal;
            state.input_buffer = String::new();
            state.candidate_processes = Vec::new();
            state.selected_process = 0;
            proof {
                assert(m0.candidate_processes[m0.selected_process as int]
                    == old(state).candidate_processes.deep_view()[m0.selected_process as int]);
                assert(state@ =~~= step_spec(m0, key_event, tdv).0);
            }
            None
        },
        (KeyInput::Enter, AppMode::InputPattern) => {
            if !state.input_buffer.as_str().is_empty() {
                let matches_vec = ProcessManager::find_matching_processes(
                    state.input_buffer.as_str(),
                    table,
                );
                let ghost mdv = matches_vec.deep_view();
                let mut names: Vec<String> = Vec::new();
                let mut j: usize = 0;
                while j < matches_vec.len()
                    invariant
                        j <= matches_vec.len(),
                        mdv == matches_vec.deep_view(),
                        mdv.len() == matches_vec.len(),
                        names@.len() == j,
                        forall|k: int| 0 <= k < j ==> names@[k]@ == mdv[k].1,
                    decreases matches_vec.len() - j,
                {
                    proof {
                        assert(mdv[j as int] == (matches_vec[j as int].0, matches_vec[j as int].1@));
                    }
                    let name_copy = matches_vec[j].1.clone();
                    names.push(name_copy);
                    j += 1;
                }
                proof {
                    assert(names.deep_view() =~= entry_names(mdv));
                }
                state.candidate_processes = names;
                if state.candidate_processes.len() > 0 {
                    state.mode = AppMode::SelectProcess;
                    state.selected_process = 0;
                }
            }
            proof {
                assert(state@ =~~= step_spec(m0, key_event, tdv).0);
            }
            None
        },
        (KeyInput::Up, AppMode::SelectProcess) => {
            if state.selected_process > 0 {
                state.selected_process = state.selected_process - 1;
            }
            proof {
                assert(state@ =~~= step_spec(m0, key_event, tdv).0);
            }
            None
        },
        (KeyInput::Up, AppMode::Normal) => {
            if state.process_manager.get_current_processes().len() > 0
                && state.selected_monitored_process > 0 {
                state.selected_monitored_process = state.selected_monitored_process - 1;
            }
            proof {
                assert(state@ =~~= step_spec(m0, key_event, tdv).0);
            }
            None
        },
        (KeyInput::Down, AppMode::SelectProcess) => {
            let candidates_len = state.candidate_processes.len();
            if state.selected_process + 1 < candidates_len {
                state.selected_process = state.selected_process + 1;
            }
            proof {
                assert(state@ =~~= step_spec(m0, key_event, tdv).0);
            }
            None
        },
        (KeyInput::Down, AppMode::Normal) => {
            let samples_len = state.process_manager.get_current_processes().len();
            if samples_len > 0 && state.selected_monitored_process + 1 < samples_len {
                state.selected_monitored_process = state.selected_monitored_process + 1;
            }
            proof {
                assert(state@ =~~= step_spec(m0, key_event, tdv).0);
            }
            None
        },
        _ => {
            proof {
                assert(state@ =~~= step_spec(m0, key_event, tdv).0);
            }
            None
        },
    };
    proof {
        lemma_step_preserves_wf(m0, key_event, tdv);
    }
    action
}

/// Law: one step keeps the state well-formed — every selection index stays
/// inside its list, and the candidate list is non-empty exactly in
/// selection mode.
pub proof fn lemma_step_preserves_wf(m: StateModel, key: KeyInput, table: Seq<(u64, Seq<char>)>)
    requires
        wf_state(m),
    ensures
        wf_state(step_spec(m, key, table).0),
{
}

/// The state after a whole sequence of key events, first event first.
pub open spec fn run_spec(m: StateModel, keys: Seq<KeyInput>, table: Seq<(u64, Seq<char>)>) -> StateModel
    decreases keys.len(),
{
    if keys.len() == 0 {
        m
    } else {
        run_spec(step_spec(m, keys.first(), table).0, keys.drop_first(), table)
    }
}

/// Law: any sequence of key events keeps the state well-formed. In
/// particular, whenever the candidate list is shown and non-empty, the
/// selected index stays within `[0, len - 1]`.
pub proof fn lemma_run_preserves_wf(m: StateModel, keys: Seq<KeyInput>, table: Seq<(u64, Seq<char>)>)
    requires
        wf_state(m),
    ensures
        wf_state(run_spec(m, keys, table)),
        run_spec(m, keys, table).mode == AppMode::SelectProcess ==> (run_spec(
            m,
            keys,
            table,
        ).selected_process as nat) < run_spec(m, keys, table).candidate_processes.len(),
    decreases keys.len(),
{
    if keys.len() > 0 {
        lemma_step_preserves_wf(m, keys.first(), table);
        lemma_run_preserves_wf(step_spec(m, keys.first(), table).0, keys.drop_first(), table);
    }
}

/// Law: deleting the only monitored process empties the monitored set and
/// leaves the monitored selection at zero.
pub proof fn lemma_remove_only_monitored(m: StateModel, table: Seq<(u64, Seq<char>)>)
    requires
        wf_state(m),
        m.mode == AppMode::Normal,
        m.monitored.len() == 1,
        m.samples.len() <= 1,
    ensures
        step_spec(m, KeyInput::Char('d'), table).0.monitored == Seq::<(Seq<char>, u64)>::empty(),
        step_spec(m, KeyInput::Char('d'), table).0.selected_monitored_process == 0,
{
    assert(m.monitored.remove(0) =~= Seq::<(Seq<char>, u64)>::empty());
}

/// Law: entering recording mode from normal mode drops every previously
/// recorded statistic, so the history holds exactly what the ticks of the
/// new recording append.
pub proof fn lemma_enter_stats_clears_history(m: StateModel, table: Seq<(u64, Seq<char>)>)
    requires
        m.mode == AppMode::Normal,
    ensures
        step_spec(m, KeyInput::Char('s'), table).0.stats_data == Seq::<(
            Seq<char>,
            Seq<crate::process::SampleModel>,
        )>::empty(),
        step_spec(m, KeyInput::Char('s'), table).0.mode == AppMode::Stats,
{
}

/// Law: confirming a save whose filename carries the expected extension
/// exports exactly the recorded history, returns to normal mode and
/// clears the filename and the history.
pub proof fn lemma_save_exports_recorded_history(m: StateModel, table: Seq<(u64, Seq<char>)>)
    requires
        m.mode == AppMode::SavePrompt,
        seq_ends_with(m.save_filename, ".csv"@),
    ensures
        step_spec(m, KeyInput::Enter, table).1 == Some(
            (m.save_filename, csv_of_stats(m.stats_data)),
        ),
        step_spec(m, KeyInput::Enter, table).0.mode == AppMode::Normal,
        step_spec(m, KeyInput::Enter, table).0.save_filename == Seq::<char>::empty(),
        step_spec(m, KeyInput::Enter, table).0.stats_data == Seq::<(
            Seq<char>,
            Seq<crate::process::SampleModel>,
        )>::empty(),
{
}

/// Law: confirming a save whose filename lacks the expected extension
/// writes nothing, keeps the mode and the history, and appends an inline
/// hint to the filename.
pub proof fn lemma_save_rejects_bad_filename(m: StateModel, table: Seq<(u64, Seq<char>)>)
    requires
        m.mode == AppMode::SavePrompt,
        !seq_ends_with(m.save_filename, ".csv"@),
    ensures
        step_spec(m, KeyInput::Enter, table).1 is None,
        step_spec(m, KeyInput::Enter, table).0.mode == AppMode::SavePrompt,
        step_spec(m, KeyInput::Enter, table).0.stats_data == m.stats_data,
        step_spec(m, KeyInput::Enter, table).0.save_filename == m.save_filename + " (must end with .csv)"@,
{
}

} // verus!
