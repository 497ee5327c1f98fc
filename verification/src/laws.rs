//! The guarantees the integrator gives across whole runs, stated and proved
//! over the one-step transition [`BatteryCycleCounter::updated`].

use vstd::prelude::*;

verus! {

use crate::counter::BatteryCycleCounter;
use crate::counter::elapsed_seconds;
use crate::counter::saturate_u64;
use vstd::arithmetic::div_mod::lemma_div_basics_4;
use vstd::arithmetic::div_mod::lemma_div_basics_5;
use vstd::arithmetic::div_mod::lemma_div_is_ordered;
use vstd::arithmetic::mul::lemma_mul_inequality;
use vstd::arithmetic::mul::lemma_mul_is_commutative;
use vstd::arithmetic::mul::lemma_mul_is_distributive_add;
use vstd::arithmetic::mul::lemma_mul_nonnegative;

/// The state reached from `s` after processing `samples` in order, where
/// each sample is a pair of a discharge current (mA) and a timestamp (s).
pub open spec fn run_updates(s: BatteryCycleCounter, samples: Seq<(i32, u64)>) -> BatteryCycleCounter
    decreases samples.len(),
{
    if samples.len() == 0 {
        s
    } else {
        run_updates(s.updated(samples[0].0, samples[0].1), samples.skip(1))
    }
}

/// One sample preserves well-formedness, keeps the capacity, advances the
/// clock to the sample's timestamp, and never decreases the charge total or
/// the cycle count — whatever the current's sign and however the timestamp
/// relates to the previous one.
pub proof fn lemma_update_step(s: BatteryCycleCounter, discharge_current_ma: i32, timestamp_s: u64)
    requires
        s.wf(),
    ensures
        s.updated(discharge_current_ma, timestamp_s).wf(),
        s.updated(discharge_current_ma, timestamp_s).capacity_mas == s.capacity_mas,
        s.updated(discharge_current_ma, timestamp_s).last_update_time_s == timestamp_s,
        s.updated(discharge_current_ma, timestamp_s).discharge_total_uas
            >= s.discharge_total_uas,
        s.updated(discharge_current_ma, timestamp_s).cycle_count_milli >= s.cycle_count_milli,
{
    let dt = elapsed_seconds(s.last_update_time_s, timestamp_s);
    if discharge_current_ma >= 0 {
        lemma_mul_nonnegative(discharge_current_ma as int, dt);
        lemma_mul_nonnegative(discharge_current_ma as int * dt, 1000);
        let total = saturate_u64(s.discharge_total_uas + discharge_current_ma * dt * 1000);
        lemma_div_basics_4(total, s.capacity_mas as int);
        lemma_div_basics_5(total, s.capacity_mas as int);
        lemma_div_is_ordered(s.discharge_total_uas as int, total, s.capacity_mas as int);
    }
}

/// Well-formedness is preserved along any run.
pub proof fn lemma_run_wf(s: BatteryCycleCounter, samples: Seq<(i32, u64)>)
    requires
        s.wf(),
    ensures
        run_updates(s, samples).wf(),
    decreases samples.len(),
{
    if samples.len() > 0 {
        lemma_update_step(s, samples[0].0, samples[0].1);
        lemma_run_wf(s.updated(samples[0].0, samples[0].1), samples.skip(1));
    }
}

/// Appending one sample to a run is the same as running and then processing
/// that sample.
pub proof fn lemma_run_push(s: BatteryCycleCounter, samples: Seq<(i32, u64)>, sample: (i32, u64))
    ensures
        run_updates(s, samples.push(sample)) == run_updates(s, samples).updated(
            sample.0,
            sample.1,
        ),
    decreases samples.len(),
{
    reveal_with_fuel(run_updates, 3);
    if samples.len() == 0 {
        assert(samples.push(sample)[0] == sample);
        assert(samples.push(sample).skip(1) =~= Seq::<(i32, u64)>::empty());
    } else {
        assert(samples.push(sample)[0] == samples[0]);
        assert(samples.push(sample).skip(1) =~= samples.skip(1).push(sample));
        lemma_run_push(s.updated(samples[0].0, samples[0].1), samples.skip(1), sample);
    }
}

/// Monotonicity: over any sequence of samples with non-decreasing
/// timestamps and non-negative currents, the cycle count is non-decreasing
/// after each sample.
pub proof fn lemma_cycle_count_monotonic(s: BatteryCycleCounter, samples: Seq<(i32, u64)>)
    requires
        s.wf(),
        forall|i: int, j: int|
            0 <= i <= j < samples.len() ==> (#[trigger] samples[i]).1 <= (#[trigger] samples[j]).1,
        forall|i: int| 0 <= i < samples.len() ==> (#[trigger] samples[i]).0 >= 0,
    ensures
        forall|i: int|
            0 <= i < samples.len() ==> run_updates(s, #[trigger] samples.take(i)).cycle_count_milli
                <= run_updates(s, samples.take(i + 1)).cycle_count_milli,
{
    assert forall|i: int| 0 <= i < samples.len() implies run_updates(
        s,
        #[trigger] samples.take(i),
    ).cycle_count_milli <= run_updates(s, samples.take(i + 1)).cycle_count_milli by {
        lemma_run_wf(s, samples.take(i));
        assert(samples.take(i + 1) =~= samples.take(i).push(samples[i]));
        lemma_run_push(s, samples.take(i), samples[i]);
        lemma_update_step(run_updates(s, samples.take(i)), samples[i].0, samples[i].1);
    }
}

/// A charging sample changes nothing but the clock: the charge total and
/// the cycle count stay put, while the last-update time advances to the
/// charging sample's timestamp — so a later discharging sample integrates
/// only over the time elapsed since the charging sample, not further back.
pub proof fn lemma_charging_advances_clock(
    s: BatteryCycleCounter,
    charge_current_ma: i32,
    charge_time_s: u64,
    discharge_current_ma: i32,
    discharge_time_s: u64,
)
    requires
        s.wf(),
        charge_current_ma < 0,
        discharge_current_ma >= 0,
        charge_time_s <= discharge_time_s,
    ensures
        s.updated(charge_current_ma, charge_time_s).cycle_count_milli == s.cycle_count_milli,
        s.updated(charge_current_ma, charge_time_s).discharge_total_uas
            == s.discharge_total_uas,
        s.updated(charge_current_ma, charge_time_s).last_update_time_s == charge_time_s,
        s.updated(charge_current_ma, charge_time_s).updated(
            discharge_current_ma,
            discharge_time_s,
        ).discharge_total_uas == saturate_u64(
            s.discharge_total_uas + discharge_current_ma * (discharge_time_s - charge_time_s)
                * 1000,
        ),
{
}

/// An idle sample (zero current) leaves the charge total and the cycle
/// count unchanged but still advances the last-update time.
pub proof fn lemma_idle_sample(s: BatteryCycleCounter, timestamp_s: u64)
    requires
        s.wf(),
    ensures
        s.updated(0, timestamp_s).discharge_total_uas == s.discharge_total_uas,
        s.updated(0, timestamp_s).cycle_count_milli == s.cycle_count_milli,
        s.updated(0, timestamp_s).last_update_time_s == timestamp_s,
        s.updated(0, timestamp_s).capacity_mas == s.capacity_mas,
{
}

/// The state reached from `s` after one sample per element of `times`, all
/// with the same discharge current.
pub open spec fn run_constant_current(
    s: BatteryCycleCounter,
    discharge_current_ma: i32,
    times: Seq<u64>,
) -> BatteryCycleCounter
    decreases times.len(),
{
    if times.len() == 0 {
        s
    } else {
        run_constant_current(s.updated(discharge_current_ma, times[0]), discharge_current_ma, times.skip(1))
    }
}

/// Linearity: a non-negative current `I` held constant over samples whose
/// timestamps climb from the counter's last-update time to `times.last()`
/// raises the charge total by exactly `I` times the total elapsed time —
/// however the interval is subdivided — and the resulting cycle count is
/// that total divided by the capacity. The bound in the last precondition
/// only keeps the final total inside `u64`, so the accumulator never
/// saturates along the way.
pub proof fn lemma_constant_current_linearity(
    s: BatteryCycleCounter,
    discharge_current_ma: i32,
    times: Seq<u64>,
)
    requires
        s.wf(),
        discharge_current_ma >= 0,
        times.len() > 0,
        s.last_update_time_s <= times[0],
        forall|i: int, j: int|
            0 <= i <= j < times.len() ==> (#[trigger] times[i]) <= (#[trigger] times[j]),
        s.discharge_total_uas + discharge_current_ma * (times.last() - s.last_update_time_s)
            * 1000 <= u64::MAX,
    ensures
        run_constant_current(s, discharge_current_ma, times).discharge_total_uas
            == s.discharge_total_uas + discharge_current_ma * (times.last()
            - s.last_update_time_s) * 1000,
        run_constant_current(s, discharge_current_ma, times).capacity_mas == s.capacity_mas,
        run_constant_current(s, discharge_current_ma, times).last_update_time_s == times.last(),
        run_constant_current(s, discharge_current_ma, times).cycle_count_milli
            == (s.discharge_total_uas + discharge_current_ma * (times.last()
            - s.last_update_time_s) * 1000) / (s.capacity_mas as int),
    decreases times.len(),
{
    reveal_with_fuel(run_constant_current, 3);
    let c = discharge_current_ma as int;
    let dt0 = times[0] - s.last_update_time_s;
    let full = times.last() - s.last_update_time_s;
    lemma_mul_nonnegative(c, dt0);
    lemma_mul_is_commutative(c, dt0);
    lemma_mul_is_commutative(c, full);
    lemma_mul_inequality(dt0, full, c);
    lemma_mul_inequality(c * dt0, c * full, 1000);
    let s1 = s.updated(discharge_current_ma, times[0]);
    lemma_update_step(s, discharge_current_ma, times[0]);
    assert(s1.discharge_total_uas == s.discharge_total_uas + c * dt0 * 1000);
    if times.len() == 1 {
        assert(times.last() == times[0]);
    } else {
        lemma_mul_is_distributive_add(c, dt0, times.last() - times[0]);
        assert(c * dt0 * 1000 + c * (times.last() - times[0]) * 1000 == c * full * 1000);
        assert(times.skip(1).last() == times.last());
        lemma_constant_current_linearity(s1, discharge_current_ma, times.skip(1));
    }
}

} // verus!
