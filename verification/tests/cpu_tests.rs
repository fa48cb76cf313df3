use catz::cpu::calculate_cpu_percentage;

// Readings are in milli-units: 100.0 of the source's unit is 100_000.
// Results are in tenths of a percent: 250.0 % is 2500.

#[test]
fn no_delta_gives_zero() {
    assert_eq!(calculate_cpu_percentage(100_000, 100_000, 1000), 0);
}

#[test]
fn integral_percentage() {
    // delta = 5.0, elapsed = 2 s, raw = 250.0 %
    assert_eq!(calculate_cpu_percentage(10_000, 15_000, 2000), 2500);
}

#[test]
fn zero_elapsed_guard() {
    assert_eq!(calculate_cpu_percentage(0, 0, 0), 0);
    assert_eq!(calculate_cpu_percentage(10_000, 15_000, 0), 0);
    assert_eq!(calculate_cpu_percentage(20_000, 10_000, 0), 0);
    assert_eq!(calculate_cpu_percentage(u64::MAX, 0, 0), 0);
    assert_eq!(calculate_cpu_percentage(0, u64::MAX, 0), 0);
}

#[test]
fn negative_delta_clamps_to_zero() {
    assert_eq!(calculate_cpu_percentage(20_000, 10_000, 1000), 0);
}

#[test]
fn rounds_to_nearest_tenth() {
    // delta = 0.001, elapsed = 1 s: exactly 0.1 %, one tenth.
    assert_eq!(calculate_cpu_percentage(0, 1, 1000), 1);
    // 0.05 % rounds up to 0.1 %.
    assert_eq!(calculate_cpu_percentage(0, 1, 2000), 1);
    // 0.0333… % rounds down to 0.0 %.
    assert_eq!(calculate_cpu_percentage(0, 1, 3000), 0);
}

#[test]
fn saturates_at_u64_max() {
    assert_eq!(calculate_cpu_percentage(0, u64::MAX, 1), u64::MAX);
}
