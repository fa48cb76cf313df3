//! Monitored processes and per-tick samples.
//!
//! A [`ProcessInfo`] is one process's snapshot for one tick: name, PID, CPU
//! percentage in tenths of a percent, and resident memory in hundredths of a
//! megabyte. The [`ProcessManager`] keeps the ordered list of processes the
//! user chose to track and the samples of the latest tick.

use vstd::prelude::*;
use crate::matcher::{matches_name, name_matches};

verus! {

/// The mathematical content of a [`ProcessInfo`].
#[verifier::ext_equal]
pub struct SampleModel {
    pub name: Seq<char>,
    pub pid: u64,
    pub cpu_usage_tenths: u64,
    pub memory_mb_hundredths: u64,
}

/// One process's snapshot for one tick.
#[derive(Clone, Debug)]
pub struct ProcessInfo {
    pub name: String,
    pub pid: u64,
    /// CPU usage in tenths of a percent.
    pub cpu_usage_tenths: u64,
    /// Resident memory in hundredths of a megabyte.
    pub memory_mb_hundredths: u64,
}

impl View for ProcessInfo {
    type V = SampleModel;

    open spec fn view(&self) -> SampleModel {
        SampleModel {
            name: self.name@,
            pid: self.pid,
            cpu_usage_tenths: self.cpu_usage_tenths,
            memory_mb_hundredths: self.memory_mb_hundredths,
        }
    }
}

impl DeepView for ProcessInfo {
    type V = SampleModel;

    open spec fn deep_view(&self) -> SampleModel {
        self@
    }
}

impl ProcessInfo {
    pub fn new(name: String, pid: u64, cpu_usage_tenths: u64, memory_mb_hundredths: u64) -> (r:
        ProcessInfo)
        ensures
            r@ == (SampleModel {
                name: name@,
                pid,
                cpu_usage_tenths,
                memory_mb_hundredths,
            }),
    {
        ProcessInfo { name, pid, cpu_usage_tenths, memory_mb_hundredths }
    }
}

/// The entries of `table` whose name matches `pattern`, in table order.
pub open spec fn matching_entries(pattern: Seq<char>, table: Seq<(u64, Seq<char>)>) -> Seq<
    (u64, Seq<char>),
>
    decreases table.len(),
{
    if table.len() == 0 {
        Seq::empty()
    } else {
        let rest = matching_entries(pattern, table.drop_last());
        if name_matches(pattern, table.last().1) {
            rest.push(table.last())
        } else {
            rest
        }
    }
}

/// The mathematical content of a [`ProcessManager`].
#[verifier::ext_equal]
pub struct ManagerModel {
    pub monitored: Seq<(Seq<char>, u64)>,
    pub current: Seq<SampleModel>,
}

/// The ordered set of monitored processes, and the samples of the latest
/// tick.
#[derive(Debug)]
pub struct ProcessManager {
    monitored_processes: Vec<(String, u64)>,
    current_processes: Vec<ProcessInfo>,
}

impl View for ProcessManager {
    type V = ManagerModel;

    closed spec fn view(&self) -> ManagerModel {
        ManagerModel {
            monitored: self.monitored_processes.deep_view(),
            current: self.current_processes.deep_view(),
        }
    }
}

impl ProcessManager {
    pub fn new() -> (r: ProcessManager)
        ensures
            r@.monitored == Seq::<(Seq<char>, u64)>::empty(),
            r@.current == Seq::<SampleModel>::empty(),
    {
        let r = ProcessManager { monitored_processes: Vec::new(), current_processes: Vec::new() };
        proof {
            assert(r@.monitored =~= Seq::<(Seq<char>, u64)>::empty());
            assert(r@.current =~= Seq::<SampleModel>::empty());
        }
        r
    }

    /// Appends one process to the end of the monitored list. No
    /// deduplication: two entries may share a name or even a PID.
    pub fn add_process(&mut self, name: String, pid: u64)
        ensures
            final(self)@.monitored == old(self)@.monitored.push((name@, pid)),
            final(self)@.current == old(self)@.current,
    {
        let ghost n = name@;
        self.monitored_processes.push((name, pid));
        proof {
            assert(self@.monitored =~= old(self)@.monitored.push((n, pid)));
        }
    }

    /// Deletes the monitored entry at `index`; a no-op when `index` is out
    /// of range.
    pub fn remove_process(&mut self, index: usize)
        ensures
            index < old(self)@.monitored.len() ==> final(self)@.monitored == old(
                self,
            )@.monitored.remove(index as int),
            index >= old(self)@.monitored.len() ==> final(self)@.monitored == old(
                self,
            )@.monitored,
            final(self)@.current == old(self)@.current,
    {
        if index < self.monitored_processes.len() {
            self.monitored_processes.remove(index);
            proof {
                assert(self@.monitored =~= old(self)@.monitored.remove(index as int));
            }
        }
    }

    /// The ordered monitored list, read-only.
    pub fn get_monitored_processes(&self) -> (r: &Vec<(String, u64)>)
        ensures
            r.deep_view() == self@.monitored,
    {
        &self.monitored_processes
    }

    /// The samples of the latest tick, read-only.
    pub fn get_current_processes(&self) -> (r: &Vec<ProcessInfo>)
        ensures
            r.deep_view() == self@.current,
    {
        &self.current_processes
    }

    /// Replaces the samples of the latest tick.
    pub fn update_processes(&mut self, processes: Vec<ProcessInfo>)
        ensures
            final(self)@.current == processes.deep_view(),
            final(self)@.monitored == old(self)@.monitored,
    {
        self.current_processes = processes;
    }

    /// The `(pid, name)` entries of the process table whose name contains
    /// `pattern`, case-insensitively, in table order; empty when nothing
    /// matches.
    pub fn find_matching_processes(pattern: &str, table: &Vec<(u64, String)>) -> (r: Vec<
        (u64, String),
    >)
        ensures
            r.deep_view() == matching_entries(pattern@, table.deep_view()),
    {
        let mut r: Vec<(u64, String)> = Vec::new();
        let ghost tv = table.deep_view();
        proof {
            assert(r.deep_view() =~= matching_entries(pattern@, tv.take(0)));
        }
        let mut i: usize = 0;
        while i < table.len()
            invariant
                i <= table.len(),
                tv == table.deep_view(),
                tv.len() == table.len(),
                r.deep_view() == matching_entries(pattern@, tv.take(i as int)),
            decreases table.len() - i,
        {
            let entry = &table[i];
            proof {
                assert(tv.take(i + 1).drop_last() =~= tv.take(i as int));
                assert(tv.take(i + 1).last() == tv[i as int]);
                assert(tv[i as int] == (entry.0, entry.1@));
            }
            if matches_name(pattern, entry.1.as_str()) {
                let name_copy = entry.1.clone();
                let pid = entry.0;
                r.push((pid, name_copy));
                proof {
                    assert(r.deep_view() =~= matching_entries(pattern@, tv.take(i + 1)));
                }
            } else {
                proof {
                    assert(r.deep_view() =~= matching_entries(pattern@, tv.take(i + 1)));
                }
            }
            i += 1;
        }
        proof {
            assert(tv.take(table.len() as int) =~= tv);
        }
        r
    }
}

} // verus!
