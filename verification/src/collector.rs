//! The tick driver: turns one round of process-table readings into the
//! tick's samples.
//!
//! On each tick the surrounding loop captures, for every visible process,
//! its cumulative CPU reading (in milli-units, before the table is
//! refreshed), then refreshes the table and hands both here. For each
//! monitored PID the refreshed table is searched; a PID that is gone (the
//! process exited) is silently omitted. The CPU percentage comes from the
//! previous and the captured cumulative reading, falling back to the
//! table's own instantaneous reading on the first tick for a PID; memory is
//! converted from bytes to hundredths of a megabyte.

use std::collections::HashMap;
use vstd::prelude::*;
use crate::cpu::{calculate_cpu_percentage, cpu_percent_tenths_sat};
use crate::process::{ProcessInfo, SampleModel};

verus! {

broadcast use vstd::std_specs::hash::group_hash_axioms;

/// The mathematical content of a [`ProcessReading`].
#[verifier::ext_equal]
pub struct ReadingModel {
    pub pid: u64,
    pub name: Seq<char>,
    pub cpu_milli: u64,
    pub memory_bytes: u64,
}

/// One process's row of the refreshed process table, as the surrounding
/// loop hands it in: PID, name, the current cumulative CPU reading in
/// milli-units, and resident memory in bytes.
pub struct ProcessReading {
    pub pid: u64,
    pub name: String,
    /// Cumulative CPU reading in milli-units.
    pub cpu_milli: u64,
    /// Resident memory in bytes.
    pub memory_bytes: u64,
}

impl View for ProcessReading {
    type V = ReadingModel;

    open spec fn view(&self) -> ReadingModel {
        ReadingModel {
            pid: self.pid,
            name: self.name@,
            cpu_milli: self.cpu_milli,
            memory_bytes: self.memory_bytes,
        }
    }
}

impl DeepView for ProcessReading {
    type V = ReadingModel;

    open spec fn deep_view(&self) -> ReadingModel {
        self@
    }
}

/// The map that a list of `(pid, cumulative reading)` pairs stands for;
/// a later pair for the same PID wins.
pub open spec fn times_map(readings: Seq<(u64, u64)>) -> Map<u64, u64>
    decreases readings.len(),
{
    if readings.len() == 0 {
        Map::empty()
    } else {
        times_map(readings.drop_last()).insert(readings.last().0, readings.last().1)
    }
}

/// The first table row carrying `pid`, if any.
pub open spec fn lookup_reading(table: Seq<ReadingModel>, pid: u64) -> Option<ReadingModel>
    decreases table.len(),
{
    if table.len() == 0 {
        None
    } else if table.first().pid == pid {
        Some(table.first())
    } else {
        lookup_reading(table.drop_first(), pid)
    }
}

/// An instantaneous milli-unit reading as tenths, rounded to the nearest
/// (ties up).
pub open spec fn milli_to_tenths(m: nat) -> nat {
    m / 100 + if m % 100 >= 50 {
        1nat
    } else {
        0nat
    }
}

/// Bytes as hundredths of a megabyte, rounded to the nearest (ties up).
pub open spec fn bytes_to_mb_hundredths(bytes: nat) -> nat {
    (bytes * 100 + 524288) / 1048576
}

/// The sample that one table row yields, given the maps of previous and
/// captured cumulative readings.
pub open spec fn sample_of(
    entry: ReadingModel,
    prev: Map<u64, u64>,
    cur: Map<u64, u64>,
    elapsed_ms: nat,
) -> SampleModel {
    SampleModel {
        name: entry.name,
        pid: entry.pid,
        cpu_usage_tenths: if prev.contains_key(entry.pid) && cur.contains_key(entry.pid) {
            cpu_percent_tenths_sat(prev[entry.pid] as nat, cur[entry.pid] as nat, elapsed_ms)
        } else {
            milli_to_tenths(entry.cpu_milli as nat) as u64
        },
        memory_mb_hundredths: bytes_to_mb_hundredths(entry.memory_bytes as nat) as u64,
    }
}

/// The samples of one tick: for each monitored PID in order, the first
/// matching table row's sample; monitored PIDs absent from the table are
/// omitted.
pub open spec fn collect_spec(
    monitored: Seq<(Seq<char>, u64)>,
    table: Seq<ReadingModel>,
    prev: Map<u64, u64>,
    cur: Map<u64, u64>,
    elapsed_ms: nat,
) -> Seq<SampleModel>
    decreases monitored.len(),
{
    if monitored.len() == 0 {
        Seq::empty()
    } else {
        let rest = collect_spec(monitored.drop_last(), table, prev, cur, elapsed_ms);
        match lookup_reading(table, monitored.last().1) {
            Option::None => rest,
            Option::Some(entry) => rest.push(sample_of(entry, prev, cur, elapsed_ms)),
        }
    }
}

proof fn lemma_lookup_skip(table: Seq<ReadingModel>, pid: u64, i: int)
    requires
        0 <= i <= table.len(),
        forall|j: int| 0 <= j < i ==> table[j].pid != pid,
    ensures
        lookup_reading(table, pid) == lookup_reading(table.skip(i), pid),
    decreases i,
{
    if i == 0 {
        assert(table.skip(0) =~= table);
    } else {
        lemma_lookup_skip(table, pid, i - 1);
        assert(table.skip(i - 1).first() == table[i - 1]);
        assert(table.skip(i - 1).drop_first() =~= table.skip(i));
    }
}

fn find_reading(table: &Vec<ProcessReading>, pid: u64) -> (r: Option<usize>)
    ensures
        match r {
            Option::Some(i) => i < table.len() && table[i as int]@.pid == pid && lookup_reading(
                table.deep_view(),
                pid,
            ) == Some(table[i as int]@),
            Option::None => lookup_reading(table.deep_view(), pid) is None,
        },
{
    let ghost tv = table.deep_view();
    let mut i: usize = 0;
    while i < table.len()
        invariant
            i <= table.len(),
            tv == table.deep_view(),
            tv.len() == table.len(),
            forall|j: int| 0 <= j < i ==> tv[j].pid != pid,
        decreases table.len() - i,
    {
        if table[i].pid == pid {
            proof {
                lemma_lookup_skip(tv, pid, i as int);
                assert(tv.skip(i as int).first() == tv[i as int]);
            }
            return Some(i);
        }
        i += 1;
    }
    proof {
        lemma_lookup_skip(tv, pid, table.len() as int);
        assert(tv.skip(table.len() as int) =~= Seq::empty());
    }
    None
}

/// Captures the cumulative CPU reading of every visible process as a map
/// keyed by PID, for use as the previous readings of the next tick.
pub fn capture_cpu_times(readings: &Vec<(u64, u64)>) -> (r: HashMap<u64, u64>)
    ensures
        r@ == times_map(readings@),
{
    let mut m: HashMap<u64, u64> = HashMap::new();
    proof {
        assert(m@ =~= times_map(readings@.take(0)));
    }
    let mut i: usize = 0;
    while i < readings.len()
        invariant
            i <= readings.len(),
            m@ == times_map(readings@.take(i as int)),
        decreases readings.len() - i,
    {
        let (pid, t) = readings[i];
        m.insert(pid, t);
        proof {
            assert(readings@.take(i + 1).drop_last() =~= readings@.take(i as int));
            assert(readings@.take(i + 1).last() == readings@[i as int]);
        }
        i += 1;
    }
    proof {
        assert(readings@.take(readings.len() as int) =~= readings@);
    }
    m
}

fn memory_hundredths(bytes: u64) -> (r: u64)
    ensures
        r == bytes_to_mb_hundredths(bytes as nat),
{
    let wide: u128 = (bytes as u128) * 100 + 524288;
    (wide / 1048576) as u64
}

fn instantaneous_tenths(milli: u64) -> (r: u64)
    ensures
        r == milli_to_tenths(milli as nat),
{
    milli / 100 + if milli % 100 >= 50 {
        1
    } else {
        0
    }
}

/// Builds the tick's sample list: one sample per monitored PID found in the
/// refreshed table, in monitored order; exited processes are omitted.
pub fn collect_samples(
    monitored: &Vec<(String, u64)>,
    table: &Vec<ProcessReading>,
    previous_times: &HashMap<u64, u64>,
    captured_times: &HashMap<u64, u64>,
    elapsed_ms: u64,
) -> (r: Vec<ProcessInfo>)
    ensures
        r.deep_view() == collect_spec(
            monitored.deep_view(),
            table.deep_view(),
            previous_times@,
            captured_times@,
            elapsed_ms as nat,
        ),
{
    let ghost mv = monitored.deep_view();
    let ghost tv = table.deep_view();
    let mut r: Vec<ProcessInfo> = Vec::new();
    proof {
        assert(r.deep_view() =~= collect_spec(
            mv.take(0),
            tv,
            previous_times@,
            captured_times@,
            elapsed_ms as nat,
        ));
    }
    let mut i: usize = 0;
    while i < monitored.len()
        invariant
            i <= monitored.len(),
            mv == monitored.deep_view(),
            tv == table.deep_view(),
            mv.len() == monitored.len(),
            r.deep_view() == collect_spec(
                mv.take(i as int),
                tv,
                previous_times@,
                captured_times@,
                elapsed_ms as nat,
            ),
        decreases monitored.len() - i,
    {
        let pid = monitored[i].1;
        proof {
            assert(mv.take(i + 1).drop_last() =~= mv.take(i as int));
            assert(mv.take(i + 1).last() == mv[i as int]);
            assert(mv[i as int].1 == pid);
        }
        match find_reading(table, pid) {
            Option::Some(idx) => {
                let entry = &table[idx];
                let ghost em = entry@;
                let cpu_usage_tenths = match (previous_times.get(&pid), captured_times.get(&pid)) {
                    (Option::Some(o), Option::Some(n)) => {
                        proof {
                            assert(previous_times@.contains_key(pid) && previous_times@[pid]
                                == *o);
                            assert(captured_times@.contains_key(pid) && captured_times@[pid]
                                == *n);
                        }
                        calculate_cpu_percentage(*o, *n, elapsed_ms)
                    },
                    _ => {
                        proof {
                            assert(!(previous_times@.contains_key(pid)
                                && captured_times@.contains_key(pid)));
                        }
                        instantaneous_tenths(entry.cpu_milli)
                    },
                };
                let memory_mb_hundredths = memory_hundredths(entry.memory_bytes);
                let name_copy = entry.name.clone();
                r.push(ProcessInfo::new(name_copy, entry.pid, cpu_usage_tenths, memory_mb_hundredths));
                proof {
                    assert(r.deep_view() =~= collect_spec(
                        mv.take(i + 1),
                        tv,
                        previous_times@,
                        captured_times@,
                        elapsed_ms as nat,
                    ));
                }
            },
            Option::None => {
                proof {
                    assert(r.deep_view() =~= collect_spec(
                        mv.take(i + 1),
                        tv,
                        previous_times@,
                        captured_times@,
                        elapsed_ms as nat,
                    ));
                }
            },
        }
        i += 1;
    }
    proof {
        assert(mv.take(monitored.len() as int) =~= mv);
    }
    r
}

/// One whole tick: captures the pre-refresh cumulative readings as the next
/// tick's baseline (for all visible processes, so a process added mid-run
/// already has one), and samples every monitored PID against the refreshed
/// table.
pub fn sample(
    monitored: &Vec<(String, u64)>,
    readings_before_refresh: &Vec<(u64, u64)>,
    table: &Vec<ProcessReading>,
    previous_times: &HashMap<u64, u64>,
    elapsed_ms: u64,
) -> (r: (Vec<ProcessInfo>, HashMap<u64, u64>))
    ensures
        r.1@ == times_map(readings_before_refresh@),
        r.0.deep_view() == collect_spec(
            monitored.deep_view(),
            table.deep_view(),
            previous_times@,
            times_map(readings_before_refresh@),
            elapsed_ms as nat,
        ),
{
    let captured = capture_cpu_times(readings_before_refresh);
    let samples = collect_samples(monitored, table, previous_times, &captured, elapsed_ms);
    (samples, captured)
}

} // verus!
