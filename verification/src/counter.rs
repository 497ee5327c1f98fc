//! The cycle counter itself: an incremental integrator of discharge current.
//!
//! All quantities are exact fixed-point integers:
//! - currents are in milliamps (mA), signed: positive means the battery is
//!   discharging, negative means it is charging, zero means it is idle;
//! - rated capacity is in milliamp-seconds (mA·s), i.e. milliamp-hours
//!   times 3600;
//! - the cumulative discharged charge is in microamp-seconds (µA·s), i.e.
//!   1000 times finer than the capacity unit, so that dividing the total by
//!   the capacity directly yields thousandths of a cycle;
//! - timestamps are in seconds on an arbitrary monotonic clock;
//! - cycle counts are in thousandths of a full equivalent cycle
//!   (milli-cycles), rounded toward zero.

use vstd::prelude::*;

verus! {

use vstd::arithmetic::div_mod::lemma_div_is_ordered;
use vstd::arithmetic::div_mod::lemma_div_multiples_vanish;
use vstd::arithmetic::mul::lemma_mul_inequality;
use vstd::arithmetic::mul::lemma_mul_is_associative;
use vstd::arithmetic::mul::lemma_mul_is_commutative;
use vstd::arithmetic::mul::lemma_mul_nonnegative;

/// Seconds elapsed from `last_s` to `now_s`, clamped to zero when `now_s`
/// lies before `last_s`. Out-of-order timestamps therefore never produce a
/// negative contribution to the integral.
pub open spec fn elapsed_seconds(last_s: u64, now_s: u64) -> int {
    if now_s >= last_s {
        now_s - last_s
    } else {
        0
    }
}

/// `x` clamped from above to `u64::MAX`: the accumulator saturates instead
/// of wrapping on extreme inputs.
pub open spec fn saturate_u64(x: int) -> int {
    if x > u64::MAX {
        u64::MAX as int
    } else {
        x
    }
}

/// Tracks how many full equivalent cycles a battery has undergone, fed by
/// periodic measurements of its discharge current.
///
/// The fields are public so that specifications can speak about them
/// directly; mutate the counter only through [`Self::update`].
pub struct BatteryCycleCounter {
    /// Rated capacity in mA·s. Positive; immutable after construction.
    pub capacity_mas: u64,
    /// Cumulative discharged charge in µA·s, including pre-seeded history.
    /// Never decreases.
    pub discharge_total_uas: u64,
    /// Cached cycle count in milli-cycles; always equals
    /// `discharge_total_uas / capacity_mas`.
    pub cycle_count_milli: u64,
    /// Timestamp (seconds) of the most recently processed sample, or of
    /// construction if no sample has been processed yet.
    pub last_update_time_s: u64,
}

impl BatteryCycleCounter {
    /// Well-formedness: the capacity is positive and the cached cycle count
    /// agrees with the charge total it is derived from.
    pub open spec fn wf(self) -> bool {
        &&& self.capacity_mas > 0
        &&& self.cycle_count_milli == self.discharge_total_uas as int / self.capacity_mas as int
    }

    /// The state after processing one sample: the clock always advances to
    /// the sample's timestamp; a charging sample (negative current) changes
    /// nothing else; a discharging or idle sample adds
    /// `current · elapsed` to the charge total (saturating at `u64::MAX`)
    /// and recomputes the cycle count.
    pub open spec fn updated(self, discharge_current_ma: i32, timestamp_s: u64) -> BatteryCycleCounter {
        let dt = elapsed_seconds(self.last_update_time_s, timestamp_s);
        if discharge_current_ma < 0 {
            BatteryCycleCounter {
                capacity_mas: self.capacity_mas,
                discharge_total_uas: self.discharge_total_uas,
                cycle_count_milli: self.cycle_count_milli,
                last_update_time_s: timestamp_s,
            }
        } else {
            let total = saturate_u64(self.discharge_total_uas + discharge_current_ma * dt * 1000) as u64;
            BatteryCycleCounter {
                capacity_mas: self.capacity_mas,
                discharge_total_uas: total,
                cycle_count_milli: (total as int / self.capacity_mas as int) as u64,
                last_update_time_s: timestamp_s,
            }
        }
    }

    /// Creates a counter for a battery of `capacity_mah` milliamp-hours that
    /// has already accrued `initial_cycle_count_milli` milli-cycles, with the
    /// clock starting at `start_time_s`.
    ///
    /// The bounds in the preconditions only keep the fixed-point encodings
    /// of the capacity and of the seeded charge total inside `u64`.
    pub fn new(
        capacity_mah: u64,
        initial_cycle_count_milli: u64,
        start_time_s: u64,
    ) -> (counter: Self)
        requires
            capacity_mah >= 1,
            capacity_mah * 3600 <= u64::MAX,
            initial_cycle_count_milli * capacity_mah * 3600 <= u64::MAX,
        ensures
            counter.wf(),
            counter.capacity_mas == capacity_mah * 3600,
            counter.discharge_total_uas == initial_cycle_count_milli * capacity_mah * 3600,
            counter.cycle_count_milli == initial_cycle_count_milli,
            counter.last_update_time_s == start_time_s,
    {
        let capacity_mas: u64 = capacity_mah * 3600;
        proof {
            lemma_mul_is_associative(
                initial_cycle_count_milli as int,
                capacity_mah as int,
                3600,
            );
        }
        let discharge_total_uas: u64 = initial_cycle_count_milli * capacity_mas;
        proof {
            lemma_mul_is_commutative(initial_cycle_count_milli as int, capacity_mas as int);
            lemma_div_multiples_vanish(initial_cycle_count_milli as int, capacity_mas as int);
        }
        let cycle_count_milli: u64 = discharge_total_uas / capacity_mas;
        BatteryCycleCounter {
            capacity_mas,
            discharge_total_uas,
            cycle_count_milli,
            last_update_time_s: start_time_s,
        }
    }

    /// Records one current measurement and returns the cycle count after it.
    ///
    /// The clock advances to `timestamp_s` unconditionally, so charging
    /// intervals are never later miscounted as elapsed discharge time. A
    /// charging sample (negative current) leaves the charge total and the
    /// cycle count unchanged; a discharging or idle sample integrates the
    /// current over the elapsed time. A timestamp earlier than the previous
    /// one counts as zero elapsed time.
    pub fn update(&mut self, discharge_current_ma: i32, timestamp_s: u64) -> (count_milli: u64)
        requires
            old(self).wf(),
        ensures
            final(self).wf(),
            *final(self) == old(self).updated(discharge_current_ma, timestamp_s),
            count_milli == final(self).cycle_count_milli,
            final(self).capacity_mas == old(self).capacity_mas,
            final(self).last_update_time_s == timestamp_s,
            final(self).discharge_total_uas >= old(self).discharge_total_uas,
            count_milli >= old(self).cycle_count_milli,
            discharge_current_ma < 0 ==> final(self).discharge_total_uas == old(
                self,
            ).discharge_total_uas && count_milli == old(self).cycle_count_milli,
    {
        let elapsed_s: u64 = if timestamp_s >= self.last_update_time_s {
            timestamp_s - self.last_update_time_s
        } else {
            0
        };
        self.last_update_time_s = timestamp_s;

        if discharge_current_ma < 0 {
            return self.cycle_count_milli;
        }

        proof {
            lemma_mul_nonnegative(discharge_current_ma as int, elapsed_s as int);
            lemma_mul_inequality(discharge_current_ma as int, i32::MAX as int, elapsed_s as int);
            lemma_mul_is_commutative(i32::MAX as int, elapsed_s as int);
            lemma_mul_inequality(elapsed_s as int, u64::MAX as int, i32::MAX as int);
            lemma_mul_is_commutative(u64::MAX as int, i32::MAX as int);
            lemma_mul_inequality(
                discharge_current_ma as int * elapsed_s as int,
                i32::MAX as int * u64::MAX as int,
                1000,
            );
        }
        let delta_uas: u128 = (discharge_current_ma as u128) * (elapsed_s as u128) * 1000;
        let total: u128 = (self.discharge_total_uas as u128) + delta_uas;
        self.discharge_total_uas = if total > (u64::MAX as u128) {
            u64::MAX
        } else {
            total as u64
        };
        proof {
            lemma_div_is_ordered(
                old(self).discharge_total_uas as int,
                self.discharge_total_uas as int,
                self.capacity_mas as int,
            );
        }
        self.cycle_count_milli = self.discharge_total_uas / self.capacity_mas;
        self.cycle_count_milli
    }

    /// The cycle count accrued so far, in thousandths of a full equivalent
    /// cycle. Pure accessor; no side effects.
    pub fn cycle_count(&self) -> (count_milli: u64)
        ensures
            count_milli == self.cycle_count_milli,
    {
        self.cycle_count_milli
    }
}

} // verus!
