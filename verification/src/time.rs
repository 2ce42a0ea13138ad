//! Simulated wall clock.
//!
//! The clock keeps hour / minute / second fields plus a sub-second
//! accumulator in milliseconds; `increase` advances it and reports the
//! crossing of a day boundary.

use vstd::prelude::*;

use crate::consts::{DAY_MS, MAX_STEP_MS};

verus! {

#[derive(Clone, Copy, Debug)]
pub struct Time {
    pub hour: u32,
    pub minute: u32,
    pub second: u32,
    pub accumulator_ms: u64,
}

impl Time {
    /// Field ranges of a clock between day rollovers.
    pub open spec fn wf(self) -> bool {
        &&& self.hour < 24
        &&& self.minute < 60
        &&& self.second < 60
        &&& self.accumulator_ms < 1000
    }

    /// The clock reading as milliseconds since midnight.
    pub open spec fn total_ms(self) -> int {
        self.hour * 3_600_000 + self.minute * 60_000 + self.second * 1000
            + self.accumulator_ms
    }

    pub fn new(hour: u32, minute: u32, second: u32) -> (t: Time)
        requires
            hour < 24,
            minute < 60,
            second < 60,
        ensures
            t.wf(),
            t.hour == hour,
            t.minute == minute,
            t.second == second,
            t.accumulator_ms == 0,
    {
        Time { hour, minute, second, accumulator_ms: 0 }
    }

    /// Advances the clock by `time_step` milliseconds.  Returns true iff a
    /// day boundary was crossed; the clock then wraps past midnight.
    pub fn increase(&mut self, time_step: u64) -> (day_over: bool)
        requires
            old(self).wf(),
            time_step <= MAX_STEP_MS,
        ensures
            final(self).wf(),
            final(self).total_ms() == (old(self).total_ms() + time_step) % (DAY_MS as int),
            day_over == (old(self).total_ms() + time_step >= DAY_MS),
    {
        let total: u64 = self.hour as u64 * 3_600_000 + self.minute as u64 * 60_000
            + self.second as u64 * 1000 + self.accumulator_ms;
        let sum: u64 = total + time_step;
        let day_over = sum >= DAY_MS;
        let rem: u64 = sum % DAY_MS;

        let ms: u64 = rem % 1000;
        let total_seconds: u64 = rem / 1000;
        let second: u64 = total_seconds % 60;
        let total_minutes: u64 = total_seconds / 60;
        let minute: u64 = total_minutes % 60;
        let hour: u64 = total_minutes / 60;

        proof {
            assert(total == old(self).total_ms());
            assert(rem == (sum as int) % (DAY_MS as int));
            assert(rem < DAY_MS) by (nonlinear_arith)
                requires rem == (sum as int) % (DAY_MS as int), sum >= 0;
            assert(rem == total_seconds * 1000 + ms) by (nonlinear_arith)
                requires total_seconds == rem / 1000, ms == rem % 1000, rem >= 0;
            assert(total_seconds == total_minutes * 60 + second) by (nonlinear_arith)
                requires
                    total_minutes == total_seconds / 60,
                    second == total_seconds % 60,
                    total_seconds >= 0;
            assert(total_minutes == hour * 60 + minute) by (nonlinear_arith)
                requires
                    hour == total_minutes / 60,
                    minute == total_minutes % 60,
                    total_minutes >= 0;
            assert(hour < 24) by (nonlinear_arith)
                requires
                    rem < 86_400_000,
                    total_seconds == rem / 1000,
                    total_minutes == total_seconds / 60,
                    hour == total_minutes / 60,
                    rem >= 0;
            assert(ms < 1000 && second < 60 && minute < 60) by (nonlinear_arith)
                requires
                    ms == rem % 1000,
                    second == total_seconds % 60,
                    minute == total_minutes % 60,
                    rem >= 0,
                    total_seconds >= 0,
                    total_minutes >= 0;
        }

        self.hour = hour as u32;
        self.minute = minute as u32;
        self.second = second as u32;
        self.accumulator_ms = ms;

        day_over
    }
}

} // verus!
