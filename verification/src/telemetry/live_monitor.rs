//! Standalone CPU metrics monitor: clock speed, power and temperature on demand, without the
//! stress schedule, at about 1 Hz.
use vstd::prelude::*;

use crate::telemetry::cpu_source::CpuTelemetryReadings;
use crate::telemetry::types::{CpuLiveSample, CpuLiveSampleView};

verus! {

/// The monitor's tick, in nanoseconds.
pub const SAMPLE_INTERVAL_NANOS: u64 = 1_000_000_000;

/// What is left of a tick of `interval` after `elapsed`, both in nanoseconds.
pub open spec fn rest_of_tick(interval: u64, elapsed: u64) -> u64 {
    if elapsed < interval {
        (interval - elapsed) as u64
    } else {
        0
    }
}

/// How long to wait for the next tick.
pub fn tick_rest(interval: u64, elapsed: u64) -> (rest: u64)
    ensures
        rest == rest_of_tick(interval, elapsed),
{
    if elapsed < interval {
        interval - elapsed
    } else {
        0
    }
}

/// The sample that a tick of the monitor produces.
pub fn live_sample(elapsed_ms: u64, readings: CpuTelemetryReadings) -> (s: CpuLiveSample)
    ensures
        s.deep_view() == (CpuLiveSampleView {
            elapsed_ms,
            effective_clock: readings.effective_clock.deep_view(),
            package_power: readings.package_power.deep_view(),
            package_temperature_c: readings.package_temperature_c.deep_view(),
            thermal_throttling: readings.thermal_throttling.deep_view(),
        }),
{
    CpuLiveSample {
        elapsed_ms,
        effective_clock: readings.effective_clock,
        package_power: readings.package_power,
        package_temperature_c: readings.package_temperature_c,
        thermal_throttling: readings.thermal_throttling,
    }
}

/// A tick and the wait after it take the whole interval, unless the tick itself took longer.
pub proof fn ticks_keep_the_interval(interval: u64, elapsed: u64)
    ensures
        elapsed + rest_of_tick(interval, elapsed) == if elapsed < interval {
            interval
        } else {
            elapsed
        },
{
}

} // verus!
