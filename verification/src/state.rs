//! The interaction state: the mode, the text buffers, the selection
//! indices, the monitored set, the latest samples and the recorded
//! statistics, with the well-formedness invariant that keeps every
//! selection index inside its list.

use vstd::prelude::*;
use crate::config::{secs_to_ms, secs_to_ms_sat};
use crate::process::{ProcessInfo, ProcessManager, SampleModel};

verus! {

/// The interaction mode; exactly one is active at a time.
#[derive(Debug, Clone, Copy, PartialEq, Eq, Structural)]
pub enum AppMode {
    /// Watching the monitored processes.
    Normal,
    /// Typing a search pattern.
    InputPattern,
    /// Choosing among the processes the pattern matched.
    SelectProcess,
    /// Recording per-tick statistics.
    Stats,
    /// Typing the name of the export file.
    SavePrompt,
}

/// The mathematical content of an [`AppState`].
#[verifier::ext_equal]
pub struct StateModel {
    pub mode: AppMode,
    pub should_quit: bool,
    pub input_buffer: Seq<char>,
    pub save_filename: Seq<char>,
    pub candidate_processes: Seq<Seq<char>>,
    pub selected_process: usize,
    pub selected_monitored_process: usize,
    pub interval_ms: u64,
    pub last_tick_ms: u64,
    pub stats_data: Seq<(Seq<char>, Seq<SampleModel>)>,
    pub monitored: Seq<(Seq<char>, u64)>,
    pub samples: Seq<SampleModel>,
}

/// A selection index clamped against a list of `len` entries: inside
/// `[0, len - 1]` when the list is non-empty, zero when it is empty.
pub open spec fn clamp_sel(sel: usize, len: nat) -> usize {
    if len == 0 {
        0
    } else if (sel as nat) < len {
        sel
    } else {
        (len - 1) as usize
    }
}

/// The invariant every reachable state satisfies: the candidate selection
/// index stays inside the candidate list (which is non-empty exactly in
/// selection mode), and the monitored selection index stays inside the
/// sample list.
pub open spec fn wf_state(m: StateModel) -> bool {
    &&& m.mode == AppMode::SelectProcess ==> 0 < m.candidate_processes.len() && (
    m.selected_process as nat) < m.candidate_processes.len()
    &&& m.mode != AppMode::SelectProcess ==> m.selected_process == 0
        && m.candidate_processes.len() == 0
    &&& m.samples.len() > 0 ==> (m.selected_monitored_process as nat) < m.samples.len()
    &&& m.samples.len() == 0 ==> m.selected_monitored_process == 0
}

/// The state at startup, before any event or tick.
pub open spec fn initial_state(interval_ms: u64) -> StateModel {
    StateModel {
        mode: AppMode::Normal,
        should_quit: false,
        input_buffer: Seq::empty(),
        save_filename: Seq::empty(),
        candidate_processes: Seq::empty(),
        selected_process: 0,
        selected_monitored_process: 0,
        interval_ms,
        last_tick_ms: 0,
        stats_data: Seq::empty(),
        monitored: Seq::empty(),
        samples: Seq::empty(),
    }
}

/// `stats` with `s` appended to the history of its name: the first group
/// carrying the name grows by one sample; a name seen for the first time
/// opens a new group at the end.
pub open spec fn append_stat(
    stats: Seq<(Seq<char>, Seq<SampleModel>)>,
    s: SampleModel,
) -> Seq<(Seq<char>, Seq<SampleModel>)>
    decreases stats.len(),
{
    if stats.len() == 0 {
        seq![(s.name, seq![s])]
    } else if stats.first().0 == s.name {
        seq![(stats.first().0, stats.first().1.push(s))] + stats.drop_first()
    } else {
        seq![stats.first()] + append_stat(stats.drop_first(), s)
    }
}

/// `stats` after appending every sample of `samples`, first to last, each
/// as [`append_stat`] does.
pub open spec fn append_stats_all(
    stats: Seq<(Seq<char>, Seq<SampleModel>)>,
    samples: Seq<SampleModel>,
) -> Seq<(Seq<char>, Seq<SampleModel>)>
    decreases samples.len(),
{
    if samples.len() == 0 {
        stats
    } else {
        append_stat(append_stats_all(stats, samples.drop_last()), samples.last())
    }
}

/// The whole interaction state, owned by the surrounding loop and mutated
/// only by the event and tick entry points.
#[derive(Debug)]
pub struct AppState {
    pub mode: AppMode,
    pub should_quit: bool,
    pub input_buffer: String,
    pub save_filename: String,
    pub candidate_processes: Vec<String>,
    pub selected_process: usize,
    pub selected_monitored_process: usize,
    /// Time between two sampling ticks, in milliseconds.
    pub interval_ms: u64,
    /// The moment of the last tick, in the surrounding loop's clock,
    /// milliseconds.
    pub last_tick_ms: u64,
    pub stats_data: Vec<(String, Vec<ProcessInfo>)>,
    pub process_manager: ProcessManager,
}

impl View for AppState {
    type V = StateModel;

    open spec fn view(&self) -> StateModel {
        StateModel {
            mode: self.mode,
            should_quit: self.should_quit,
            input_buffer: self.input_buffer@,
            save_filename: self.save_filename@,
            candidate_processes: self.candidate_processes.deep_view(),
            selected_process: self.selected_process,
            selected_monitored_process: self.selected_monitored_process,
            interval_ms: self.interval_ms,
            last_tick_ms: self.last_tick_ms,
            stats_data: self.stats_data.deep_view(),
            monitored: self.process_manager@.monitored,
            samples: self.process_manager@.current,
        }
    }
}

impl AppState {
    /// Whether the state satisfies the reachable-state invariant.
    pub open spec fn wf(&self) -> bool {
        wf_state(self@)
    }

    /// The state at startup; `interval` is the sampling interval in
    /// seconds.
    pub fn new(interval: u64) -> (r: AppState)
        ensures
            r@ == initial_state(secs_to_ms_sat(interval as nat)),
            r.wf(),
    {
        let r = AppState {
            mode: AppMode::Normal,
            should_quit: false,
            input_buffer: String::new(),
            save_filename: String::new(),
            candidate_processes: Vec::new(),
            selected_process: 0,
            selected_monitored_process: 0,
            interval_ms: secs_to_ms(interval),
            last_tick_ms: 0,
            stats_data: Vec::new(),
            process_manager: ProcessManager::new(),
        };
        proof {
            assert(r@ =~~= initial_state(secs_to_ms_sat(interval as nat)));
        }
        r
    }

    /// The monitored set and the latest samples, for mutation by the event
    /// dispatcher.
    pub fn process_manager(&mut self) -> (r: &mut ProcessManager)
        ensures
            *r == old(self).process_manager,
            *final(self) == (AppState { process_manager: *final(r), ..*old(self) }),
    {
        &mut self.process_manager
    }

    /// The samples of the latest tick, read-only.
    pub fn processes(&self) -> (r: &Vec<ProcessInfo>)
        ensures
            r.deep_view() == self@.samples,
    {
        self.process_manager.get_current_processes()
    }

    /// Abandons the pattern search: back to normal mode with the input
    /// buffer, the candidate list and the candidate selection cleared.
    pub fn cancel_input(&mut self)
        ensures
            final(self)@ == (StateModel {
                mode: AppMode::Normal,
                input_buffer: Seq::empty(),
                candidate_processes: Seq::empty(),
                selected_process: 0,
                ..old(self)@
            }),
    {
        self.mode = AppMode::Normal;
        self.input_buffer = String::new();
        self.candidate_processes = Vec::new();
        self.selected_process = 0;
        proof {
            assert(self@ =~~= (StateModel {
                mode: AppMode::Normal,
                input_buffer: Seq::empty(),
                candidate_processes: Seq::empty(),
                selected_process: 0,
                ..old(self)@
            }));
        }
    }

    /// Notes the moment of the tick that just ran, in the surrounding
    /// loop's clock.
    pub fn tick(&mut self, now_ms: u64)
        ensures
            final(self)@ == (StateModel { last_tick_ms: now_ms, ..old(self)@ }),
    {
        self.last_tick_ms = now_ms;
        proof {
            assert(self@ =~~= (StateModel { last_tick_ms: now_ms, ..old(self)@ }));
        }
    }

    /// Appends one sample to the statistics, but only while recording:
    /// in any mode other than [`AppMode::Stats`] the state is left alone.
    pub fn add_stats(&mut self, process_info: ProcessInfo)
        ensures
            old(self).mode == AppMode::Stats ==> final(self)@ == (StateModel {
                stats_data: append_stat(old(self)@.stats_data, process_info@),
                ..old(self)@
            }),
            old(self).mode != AppMode::Stats ==> *final(self) == *old(self),
    {
        if self.mode != AppMode::Stats {
            return ;
        }
        let ghost sv = self.stats_data.deep_view();
        let ghost pm = process_info@;
        let mut i: usize = 0;
        let n = self.stats_data.len();
        while i < n
            invariant
                i <= n,
                n == self.stats_data.len(),
                sv == self.stats_data.deep_view(),
                *self == *old(self),
                old(self).mode == AppMode::Stats,
                pm == process_info@,
                forall|k: int| 0 <= k < i ==> sv[k].0 != pm.name,
            decreases n - i,
        {
            proof {
                assert(sv[i as int] == (
                    self.stats_data[i as int].0@,
                    self.stats_data[i as int].1.deep_view(),
                ));
            }
            if self.stats_data[i].0 == process_info.name {
                let mut entry = self.stats_data.remove(i);
                entry.1.push(process_info);
                self.stats_data.insert(i, entry);
                proof {
                    let ghost dv = self.stats_data.deep_view();
                    let ghost tgt = sv.update(i as int, (sv[i as int].0, sv[i as int].1.push(pm)));
                    assert(entry.1.deep_view() =~= sv[i as int].1.push(pm));
                    assert forall|k: int| 0 <= k < dv.len() implies dv[k] == tgt[k] by {
                        if k == i {
                            assert(self.stats_data@[k] == entry);
                        } else if k < i {
                            assert(self.stats_data@[k] == old(self).stats_data@[k]);
                        } else {
                            assert(self.stats_data@[k] == old(self).stats_data@[k]);
                        }
                    }
                    assert(dv =~= tgt);
                    lemma_append_stat_at(sv, pm, i as int);
                    assert(self@ =~~= (StateModel {
                        stats_data: append_stat(old(self)@.stats_data, pm),
                        ..old(self)@
                    }));
                }
                return ;
            }
            i += 1;
        }
        let name_copy = process_info.name.clone();
        self.stats_data.push((name_copy, vec![process_info]));
        proof {
            assert(self.stats_data.deep_view() =~~= sv.push((pm.name, seq![pm])));
            lemma_append_stat_none(sv, pm);
            assert(self@ =~~= (StateModel {
                stats_data: append_stat(old(self)@.stats_data, pm),
                ..old(self)@
            }));
        }
    }

    /// Feeds one tick's samples into the statistics, in order. Only a
    /// recording state keeps anything: in any other mode the state is left
    /// alone.
    pub fn record_samples(&mut self, samples: &Vec<ProcessInfo>)
        ensures
            old(self).mode == AppMode::Stats ==> final(self)@ == (StateModel {
                stats_data: append_stats_all(old(self)@.stats_data, samples.deep_view()),
                ..old(self)@
            }),
            old(self).mode != AppMode::Stats ==> *final(self) == *old(self),
    {
        let ghost sdv = samples.deep_view();
        let ghost m0 = self@;
        let mut i: usize = 0;
        proof {
            assert(sdv.take(0) =~= Seq::<SampleModel>::empty());
            if old(self).mode == AppMode::Stats {
                assert(self@ =~~= (StateModel {
                    stats_data: append_stats_all(m0.stats_data, sdv.take(0)),
                    ..m0
                }));
            }
        }
        while i < samples.len()
            invariant
                i <= samples.len(),
                sdv == samples.deep_view(),
                sdv.len() == samples.len(),
                m0 == old(self)@,
                old(self).mode == AppMode::Stats ==> self@ == (StateModel {
                    stats_data: append_stats_all(m0.stats_data, sdv.take(i as int)),
                    ..m0
                }),
                old(self).mode != AppMode::Stats ==> *self == *old(self),
                self.mode == old(self).mode,
            decreases samples.len() - i,
        {
            let s = &samples[i];
            let copy = ProcessInfo::new(
                s.name.clone(),
                s.pid,
                s.cpu_usage_tenths,
                s.memory_mb_hundredths,
            );
            proof {
                assert(copy@ == sdv[i as int]);
            }
            self.add_stats(copy);
            proof {
                assert(sdv.take(i + 1).drop_last() =~= sdv.take(i as int));
                assert(sdv.take(i + 1).last() == sdv[i as int]);
                if old(self).mode == AppMode::Stats {
                    assert(self@ =~~= (StateModel {
                        stats_data: append_stats_all(m0.stats_data, sdv.take(i + 1)),
                        ..m0
                    }));
                }
            }
            i += 1;
        }
        proof {
            assert(sdv.take(samples.len() as int) =~= sdv);
        }
    }

    /// Replaces the latest samples with this tick's, clamping the
    /// monitored selection index against the new list so that the
    /// reachable-state invariant is kept.
    pub fn update_processes(&mut self, processes: Vec<ProcessInfo>)
        ensures
            final(self)@ == (StateModel {
                samples: processes.deep_view(),
                selected_monitored_process: clamp_sel(
                    old(self)@.selected_monitored_process,
                    processes.deep_view().len(),
                ),
                ..old(self)@
            }),
    {
        let len = processes.len();
        let ghost pv = processes.deep_view();
        self.process_manager.update_processes(processes);
        if len == 0 {
            self.selected_monitored_process = 0;
        } else if self.selected_monitored_process >= len {
            self.selected_monitored_process = len - 1;
        }
        proof {
            assert(self@ =~~= (StateModel {
                samples: pv,
                selected_monitored_process: clamp_sel(
                    old(self)@.selected_monitored_process,
                    pv.len(),
                ),
                ..old(self)@
            }));
        }
    }

    /// Drops every recorded statistic.
    pub fn clear_stats(&mut self)
        ensures
            final(self)@ == (StateModel { stats_data: Seq::empty(), ..old(self)@ }),
    {
        self.stats_data = Vec::new();
        proof {
            assert(self@ =~~= (StateModel { stats_data: Seq::empty(), ..old(self)@ }));
        }
    }
}

proof fn lemma_append_stat_at(stats: Seq<(Seq<char>, Seq<SampleModel>)>, s: SampleModel, j: int)
    requires
        0 <= j < stats.len(),
        stats[j].0 == s.name,
        forall|k: int| 0 <= k < j ==> stats[k].0 != s.name,
    ensures
        append_stat(stats, s) == stats.update(j, (stats[j].0, stats[j].1.push(s))),
    decreases j,
{
    if j == 0 {
        assert(append_stat(stats, s) =~= stats.update(0, (stats[0].0, stats[0].1.push(s))));
    } else {
        assert(stats.first().0 != s.name);
        lemma_append_stat_at(stats.drop_first(), s, j - 1);
        assert(stats.drop_first()[j - 1] == stats[j]);
        assert(append_stat(stats, s) =~= stats.update(j, (stats[j].0, stats[j].1.push(s))));
    }
}

proof fn lemma_append_stat_none(stats: Seq<(Seq<char>, Seq<SampleModel>)>, s: SampleModel)
    requires
        forall|k: int| 0 <= k < stats.len() ==> stats[k].0 != s.name,
    ensures
        append_stat(stats, s) == stats.push((s.name, seq![s])),
    decreases stats.len(),
{
    if stats.len() == 0 {
        assert(append_stat(stats, s) =~= stats.push((s.name, seq![s])));
    } else {
        assert(stats.first().0 != s.name);
        lemma_append_stat_none(stats.drop_first(), s);
        assert(append_stat(stats, s) =~= stats.push((s.name, seq![s])));
    }
}

} // verus!
