use catz::collector::{capture_cpu_times, collect_samples, sample, ProcessReading};

fn reading(pid: u64, name: &str, cpu_milli: u64, memory_bytes: u64) -> ProcessReading {
    ProcessReading { pid, name: String::from(name), cpu_milli, memory_bytes }
}

fn monitored(entries: &[(&str, u64)]) -> Vec<(String, u64)> {
    let mut m: Vec<(String, u64)> = Vec::new();
    for (name, pid) in entries {
        m.push((String::from(*name), *pid));
    }
    m
}

#[test]
fn capture_maps_every_pid() {
    let readings = vec![(1u64, 100u64), (2, 200), (3, 300)];
    let m = capture_cpu_times(&readings);
    assert_eq!(m.len(), 3);
    assert_eq!(m.get(&1), Some(&100));
    assert_eq!(m.get(&2), Some(&200));
    assert_eq!(m.get(&3), Some(&300));
    assert_eq!(m.get(&4), None);
}

#[test]
fn capture_keeps_the_later_reading_of_a_duplicate_pid() {
    let readings = vec![(1u64, 100u64), (1, 150)];
    let m = capture_cpu_times(&readings);
    assert_eq!(m.len(), 1);
    assert_eq!(m.get(&1), Some(&150));
}

#[test]
fn exited_processes_are_omitted() {
    let mon = monitored(&[("sh", 1), ("gone", 99)]);
    let table = vec![reading(1, "sh", 0, 0)];
    let prev = capture_cpu_times(&Vec::new());
    let cur = capture_cpu_times(&Vec::new());
    let samples = collect_samples(&mon, &table, &prev, &cur, 1000);
    assert_eq!(samples.len(), 1);
    assert_eq!(samples[0].pid, 1);
    assert_eq!(samples[0].name, "sh");
}

#[test]
fn cpu_comes_from_the_reading_deltas() {
    let mon = monitored(&[("sh", 1)]);
    // Cumulative readings 10.0 -> 15.0 over 2 s: 250.0 %.
    let prev = capture_cpu_times(&vec![(1u64, 10_000u64)]);
    let cur = capture_cpu_times(&vec![(1u64, 15_000u64)]);
    let table = vec![reading(1, "sh", 777_000, 0)];
    let samples = collect_samples(&mon, &table, &prev, &cur, 2000);
    assert_eq!(samples.len(), 1);
    assert_eq!(samples[0].cpu_usage_tenths, 2500);
}

#[test]
fn first_tick_falls_back_to_instantaneous_reading() {
    let mon = monitored(&[("sh", 1)]);
    let prev = capture_cpu_times(&Vec::new());
    let cur = capture_cpu_times(&vec![(1u64, 15_000u64)]);
    // 12.345 of the source's unit reads as 123 tenths (rounded).
    let table = vec![reading(1, "sh", 12_345, 0)];
    let samples = collect_samples(&mon, &table, &prev, &cur, 2000);
    assert_eq!(samples[0].cpu_usage_tenths, 123);
}

#[test]
fn memory_is_converted_to_hundredths_of_a_megabyte() {
    let mon = monitored(&[("sh", 1)]);
    let prev = capture_cpu_times(&Vec::new());
    let cur = capture_cpu_times(&Vec::new());
    // One megabyte exactly; and one and a half megabytes.
    let table = vec![reading(1, "sh", 0, 1_048_576)];
    let samples = collect_samples(&mon, &table, &prev, &cur, 1000);
    assert_eq!(samples[0].memory_mb_hundredths, 100);
    let table2 = vec![reading(1, "sh", 0, 1_572_864)];
    let samples2 = collect_samples(&mon, &table2, &prev, &cur, 1000);
    assert_eq!(samples2[0].memory_mb_hundredths, 150);
}

#[test]
fn one_whole_tick() {
    let mon = monitored(&[("sh", 1), ("bash", 2)]);
    // Pre-refresh capture: the next tick's baseline, for all processes.
    let before = vec![(1u64, 20_000u64), (2, 5_000), (3, 1_000)];
    let table = vec![
        reading(1, "sh", 21_000, 1_048_576),
        reading(2, "bash", 5_000, 2_097_152),
        reading(3, "idle", 1_000, 0),
    ];
    let prev = capture_cpu_times(&vec![(1u64, 10_000u64), (2, 5_000)]);
    let (samples, new_times) = sample(&mon, &before, &table, &prev, 1000);
    assert_eq!(samples.len(), 2);
    // sh: 10.0 -> 20.0 over 1 s = 1000.0 %.
    assert_eq!(samples[0].name, "sh");
    assert_eq!(samples[0].cpu_usage_tenths, 10_000);
    assert_eq!(samples[0].memory_mb_hundredths, 100);
    // bash: no delta.
    assert_eq!(samples[1].cpu_usage_tenths, 0);
    assert_eq!(samples[1].memory_mb_hundredths, 200);
    // The captured baseline covers every visible process.
    assert_eq!(new_times.len(), 3);
    assert_eq!(new_times.get(&3), Some(&1_000));
}

#[test]
fn monitored_order_is_kept() {
    let mon = monitored(&[("bash", 2), ("sh", 1)]);
    let table = vec![reading(1, "sh", 0, 0), reading(2, "bash", 0, 0)];
    let prev = capture_cpu_times(&Vec::new());
    let cur = capture_cpu_times(&Vec::new());
    let samples = collect_samples(&mon, &table, &prev, &cur, 1000);
    assert_eq!(samples[0].pid, 2);
    assert_eq!(samples[1].pid, 1);
}
