//! End-to-end tests of the cycle counter, all in the crate's fixed-point
//! units: currents in mA, capacities in mAh, timestamps in seconds, charge
//! totals in µA·s, cycle counts in milli-cycles.

use battery_cycle_counter::BatteryCycleCounter;

/// A 100 Ah battery seeded at 42.000 cycles, stepped through an hour of
/// 1 A discharge, an hour of charging, two more discharge hours at 1 A and
/// 10 A, and finally two hours at 1 A.
#[test]
fn it_works() {
    let start_time: u64 = 0;

    let mut subject = BatteryCycleCounter::new(100_000, 42_000, start_time);

    let cycle_count: u64 = subject.cycle_count();
    assert_eq!(cycle_count, 42_000);

    let time_1: u64 = start_time + 3600;
    subject.update(1_000, time_1);
    assert_eq!(subject.cycle_count(), 42_010);

    let time_2: u64 = time_1 + 3600;
    subject.update(-1_000, time_2);
    assert_eq!(subject.cycle_count(), 42_010);

    let time_3: u64 = time_2 + 3600;
    subject.update(1_000, time_3);
    assert_eq!(subject.cycle_count(), 42_020);

    let time_4: u64 = time_3 + 3600;
    subject.update(10_000, time_4);
    assert_eq!(subject.cycle_count(), 42_120);

    let time_5: u64 = time_4 + 3600 * 2;
    subject.update(1_000, time_5);
    assert_eq!(subject.cycle_count(), 42_140);
}

#[test]
fn seed_is_preserved() {
    let fresh = BatteryCycleCounter::new(5_000, 0, 17);
    assert_eq!(fresh.cycle_count(), 0);

    let seeded = BatteryCycleCounter::new(2_500, 123_456, 0);
    assert_eq!(seeded.cycle_count(), 123_456);
    assert_eq!(seeded.last_update_time_s, 0);
    assert_eq!(seeded.capacity_mas, 2_500 * 3600);
    assert_eq!(seeded.discharge_total_uas, 123_456 * 2_500 * 3600);
}

#[test]
fn idle_sample_changes_only_the_clock() {
    let mut subject = BatteryCycleCounter::new(1_000, 500, 100);
    let total_before: u64 = subject.discharge_total_uas;

    let count: u64 = subject.update(0, 4_100);
    assert_eq!(count, 500);
    assert_eq!(subject.discharge_total_uas, total_before);
    assert_eq!(subject.last_update_time_s, 4_100);

    // A discharge right after integrates only from the idle sample's
    // timestamp: 1 A over the following 1800 s on a 1 Ah battery is half a
    // cycle, not more.
    let count: u64 = subject.update(1_000, 5_900);
    assert_eq!(count, 1_000);
}

#[test]
fn charging_sample_is_a_noop_but_advances_the_clock() {
    let mut subject = BatteryCycleCounter::new(1_000, 0, 0);
    let total_before: u64 = subject.discharge_total_uas;

    let count: u64 = subject.update(-2_000, 3_600);
    assert_eq!(count, 0);
    assert_eq!(subject.discharge_total_uas, total_before);
    assert_eq!(subject.last_update_time_s, 3_600);

    // The subsequent discharge sees only the 3600 s since the charging
    // sample, not the 7200 s since construction: exactly one full cycle.
    let count: u64 = subject.update(1_000, 7_200);
    assert_eq!(count, 1_000);
}

#[test]
fn cycle_count_never_decreases() {
    let currents: [i32; 8] = [0, 250, 1_000, 0, 3, 999, 12_000, 1];
    let times: [u64; 8] = [10, 10, 600, 600, 1_200, 7_000, 7_001, 100_000];

    let mut subject = BatteryCycleCounter::new(750, 2_000, 0);
    let mut previous: u64 = subject.cycle_count();
    for i in 0..currents.len() {
        let count: u64 = subject.update(currents[i], times[i]);
        assert!(count >= previous);
        previous = count;
    }
}

#[test]
fn constant_current_integrates_linearly() {
    // 2 A held for 90 minutes on a 10 Ah battery, sampled three times:
    // 3 Ah discharged in all, 0.3 cycles.
    let mut subject = BatteryCycleCounter::new(10_000, 0, 0);
    let total_before: u64 = subject.discharge_total_uas;

    subject.update(2_000, 600);
    subject.update(2_000, 3_600);
    let count: u64 = subject.update(2_000, 5_400);

    let expected_delta_uas: u64 = 2_000 * 5_400 * 1_000;
    assert_eq!(subject.discharge_total_uas, total_before + expected_delta_uas);
    assert_eq!(count, 300);
}

#[test]
fn cycle_count_rounds_toward_zero() {
    // 1 A for 5 s on a 1 Ah battery is 5/3600 of a cycle: 1.38... milli,
    // reported as 1.
    let mut subject = BatteryCycleCounter::new(1_000, 0, 0);
    let count: u64 = subject.update(1_000, 5);
    assert_eq!(count, 1);
    assert_eq!(subject.discharge_total_uas, 5_000_000);
}

#[test]
fn out_of_order_timestamp_counts_no_elapsed_time() {
    let mut subject = BatteryCycleCounter::new(1_000, 0, 10_000);

    // The sample lies before the counter's last-update time: zero elapsed
    // time, so nothing accumulates, but the clock still moves to it.
    let count: u64 = subject.update(5_000, 4_000);
    assert_eq!(count, 0);
    assert_eq!(subject.discharge_total_uas, 0);
    assert_eq!(subject.last_update_time_s, 4_000);

    // Time resumes from the rewound clock.
    let count: u64 = subject.update(1_000, 7_600);
    assert_eq!(count, 1_000);
}

#[test]
fn accumulator_saturates_instead_of_wrapping() {
    let mut subject = BatteryCycleCounter::new(1, 0, 0);
    let count: u64 = subject.update(i32::MAX, u64::MAX);
    assert_eq!(subject.discharge_total_uas, u64::MAX);
    assert_eq!(count, u64::MAX / 3600);

    // The ceiling is stable: sampling again at the same instant (zero
    // elapsed time) leaves the saturated total and the count in place.
    let count_after: u64 = subject.update(i32::MAX, u64::MAX);
    assert_eq!(count_after, count);
}
