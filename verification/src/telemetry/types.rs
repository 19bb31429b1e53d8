//! Shared telemetry types for a live stress session.
//!
//! A stress sample taken without a telemetry driver still has real values (elapsed time,
//! iteration count, checksum status) and legitimately missing ones (clock, power,
//! temperature); a reader must be able to tell those apart mid-run, not just at the end.
use vstd::prelude::*;

use crate::measure::{Frequency, Power};
use crate::model::{Reading, ReadingView};

verus! {

/// The phases of a CPU stress run. There is no separate ramp: sustained load begins
/// immediately after the brief single-thread check.
#[derive(Debug, Clone, Copy, PartialEq, Eq, Structural)]
pub enum Phase {
    IdleBaseline,
    SingleThreadBoost,
    AllCoreSustained,
    Cooldown,
}

impl Phase {
    pub open spec fn label_text(self) -> Seq<char> {
        match self {
            Phase::IdleBaseline => "Idle baseline"@,
            Phase::SingleThreadBoost => "Single-thread boost"@,
            Phase::AllCoreSustained => "All-core sustained"@,
            Phase::Cooldown => "Cooldown"@,
        }
    }

    pub fn label(self) -> (s: &'static str)
        ensures
            s@ == self.label_text(),
    {
        match self {
            Phase::IdleBaseline => "Idle baseline",
            Phase::SingleThreadBoost => "Single-thread boost",
            Phase::AllCoreSustained => "All-core sustained",
            Phase::Cooldown => "Cooldown",
        }
    }
}

/// One telemetry sample, taken at the sampler's tick rate (about 4 Hz).
#[derive(Debug, Clone)]
pub struct CpuSample {
    pub elapsed_ms: u64,
    pub phase: Phase,
    /// Effective clock from APERF/MPERF deltas: true time-at-frequency, not the clock that
    /// the operating system reports.
    pub effective_clock: Reading<Frequency>,
    /// Measured package power from the energy-counter delta.
    pub package_power: Reading<Power>,
    /// The firmware's own configured sustained-power cap (Intel only).
    pub configured_pl1: Reading<Power>,
    pub configured_pl2: Reading<Power>,
    pub package_temperature_c: Reading<i16>,
    /// Intel only: whether the package thermal-throttle bit is set right now.
    pub thermal_throttling: Reading<bool>,
    /// Whether the self-check (deterministic checksum replay) matched this tick. `None` before
    /// the first checkpoint of a run, and while no worker is running.
    pub self_check_ok: Option<bool>,
    pub total_iterations: u64,
}

/// The mathematical model of [`CpuSample`].
#[verifier::ext_equal]
pub struct CpuSampleView {
    pub elapsed_ms: u64,
    pub phase: Phase,
    pub effective_clock: ReadingView<Frequency>,
    pub package_power: ReadingView<Power>,
    pub configured_pl1: ReadingView<Power>,
    pub configured_pl2: ReadingView<Power>,
    pub package_temperature_c: ReadingView<i16>,
    pub thermal_throttling: ReadingView<bool>,
    pub self_check_ok: Option<bool>,
    pub total_iterations: u64,
}

impl DeepView for CpuSample {
    type V = CpuSampleView;

    open spec fn deep_view(&self) -> CpuSampleView {
        CpuSampleView {
            elapsed_ms: self.elapsed_ms,
            phase: self.phase,
            effective_clock: self.effective_clock.deep_view(),
            package_power: self.package_power.deep_view(),
            configured_pl1: self.configured_pl1.deep_view(),
            configured_pl2: self.configured_pl2.deep_view(),
            package_temperature_c: self.package_temperature_c.deep_view(),
            thermal_throttling: self.thermal_throttling.deep_view(),
            self_check_ok: self.self_check_ok,
            total_iterations: self.total_iterations,
        }
    }
}

/// One sample from the standalone CPU metrics monitor: the same clock, power and temperature
/// telemetry that a stress run produces, without the stress schedule.
#[derive(Debug, Clone)]
pub struct CpuLiveSample {
    pub elapsed_ms: u64,
    pub effective_clock: Reading<Frequency>,
    pub package_power: Reading<Power>,
    pub package_temperature_c: Reading<i16>,
    pub thermal_throttling: Reading<bool>,
}

/// The mathematical model of [`CpuLiveSample`].
#[verifier::ext_equal]
pub struct CpuLiveSampleView {
    pub elapsed_ms: u64,
    pub effective_clock: ReadingView<Frequency>,
    pub package_power: ReadingView<Power>,
    pub package_temperature_c: ReadingView<i16>,
    pub thermal_throttling: ReadingView<bool>,
}

impl DeepView for CpuLiveSample {
    type V = CpuLiveSampleView;

    open spec fn deep_view(&self) -> CpuLiveSampleView {
        CpuLiveSampleView {
            elapsed_ms: self.elapsed_ms,
            effective_clock: self.effective_clock.deep_view(),
            package_power: self.package_power.deep_view(),
            package_temperature_c: self.package_temperature_c.deep_view(),
            thermal_throttling: self.thermal_throttling.deep_view(),
        }
    }
}

/// The final result of a completed (or aborted) CPU stress run.
#[derive(Debug, Clone)]
pub struct CpuStressResult {
    pub samples: Vec<CpuSample>,
    pub aborted: bool,
    pub abort_reason: Option<String>,
    /// True if any worker thread's self-check ever failed: a real hardware fault, not just an
    /// out-of-spec clock or temperature.
    pub self_check_failed: bool,
}

/// The mathematical model of [`CpuStressResult`].
#[verifier::ext_equal]
pub struct CpuStressResultView {
    pub samples: Seq<CpuSampleView>,
    pub aborted: bool,
    pub abort_reason: Option<Seq<char>>,
    pub self_check_failed: bool,
}

impl DeepView for CpuStressResult {
    type V = CpuStressResultView;

    open spec fn deep_view(&self) -> CpuStressResultView {
        CpuStressResultView {
            samples: self.samples.deep_view(),
            aborted: self.aborted,
            abort_reason: self.abort_reason.deep_view(),
            self_check_failed: self.self_check_failed,
        }
    }
}

/// The phases of a GPU stress run. One compute queue drives its own parallelism across
/// thousands of shader threads, so there is no single-thread phase.
#[derive(Debug, Clone, Copy, PartialEq, Eq, Structural)]
pub enum GpuPhase {
    IdleBaseline,
    ComputeSustained,
    Cooldown,
}

impl GpuPhase {
    pub open spec fn label_text(self) -> Seq<char> {
        match self {
            GpuPhase::IdleBaseline => "Idle baseline"@,
            GpuPhase::ComputeSustained => "Compute sustained"@,
            GpuPhase::Cooldown => "Cooldown"@,
        }
    }

    pub fn label(self) -> (s: &'static str)
        ensures
            s@ == self.label_text(),
    {
        match self {
            GpuPhase::IdleBaseline => "Idle baseline",
            GpuPhase::ComputeSustained => "Compute sustained",
            GpuPhase::Cooldown => "Cooldown",
        }
    }
}

#[derive(Debug, Clone)]
pub struct GpuSample {
    pub elapsed_ms: u64,
    pub phase: GpuPhase,
    pub graphics_clock_mhz: Reading<u32>,
    pub power: Reading<Power>,
    /// The primary (board) temperature, on either vendor.
    pub edge_temperature_c: Reading<u32>,
    /// Junction temperature. AMD only: without it nothing is reported, because falling back
    /// to the edge reading would misrepresent it as the hotter of the two.
    pub hotspot_temperature_c: Reading<u32>,
    /// AMD only.
    pub fan_rpm: Reading<u32>,
    pub fan_percent: Reading<u32>,
    pub sw_thermal_slowdown: Reading<bool>,
    pub hw_thermal_slowdown: Reading<bool>,
    pub sw_power_cap: Reading<bool>,
    pub hw_power_brake: Reading<bool>,
    /// Whether the checkpoint buffer read back matched its reference. The buffer round-trips
    /// through video memory, so this verifies memory integrity as well as computation.
    pub self_check_ok: Option<bool>,
    pub dispatches_completed: u64,
}

/// The mathematical model of [`GpuSample`].
#[verifier::ext_equal]
pub struct GpuSampleView {
    pub elapsed_ms: u64,
    pub phase: GpuPhase,
    pub graphics_clock_mhz: ReadingView<u32>,
    pub power: ReadingView<Power>,
    pub edge_temperature_c: ReadingView<u32>,
    pub hotspot_temperature_c: ReadingView<u32>,
    pub fan_rpm: ReadingView<u32>,
    pub fan_percent: ReadingView<u32>,
    pub sw_thermal_slowdown: ReadingView<bool>,
    pub hw_thermal_slowdown: ReadingView<bool>,
    pub sw_power_cap: ReadingView<bool>,
    pub hw_power_brake: ReadingView<bool>,
    pub self_check_ok: Option<bool>,
    pub dispatches_completed: u64,
}

impl DeepView for GpuSample {
    type V = GpuSampleView;

    open spec fn deep_view(&self) -> GpuSampleView {
        GpuSampleView {
            elapsed_ms: self.elapsed_ms,
            phase: self.phase,
            graphics_clock_mhz: self.graphics_clock_mhz.deep_view(),
            power: self.power.deep_view(),
            edge_temperature_c: self.edge_temperature_c.deep_view(),
            hotspot_temperature_c: self.hotspot_temperature_c.deep_view(),
            fan_rpm: self.fan_rpm.deep_view(),
            fan_percent: self.fan_percent.deep_view(),
            sw_thermal_slowdown: self.sw_thermal_slowdown.deep_view(),
            hw_thermal_slowdown: self.hw_thermal_slowdown.deep_view(),
            sw_power_cap: self.sw_power_cap.deep_view(),
            hw_power_brake: self.hw_power_brake.deep_view(),
            self_check_ok: self.self_check_ok,
            dispatches_completed: self.dispatches_completed,
        }
    }
}

/// The final result of a completed (or aborted) GPU stress run.
#[derive(Debug, Clone)]
pub struct GpuStressResult {
    pub samples: Vec<GpuSample>,
    pub aborted: bool,
    pub abort_reason: Option<String>,
    pub self_check_failed: bool,
}

/// The mathematical model of [`GpuStressResult`].
#[verifier::ext_equal]
pub struct GpuStressResultView {
    pub samples: Seq<GpuSampleView>,
    pub aborted: bool,
    pub abort_reason: Option<Seq<char>>,
    pub self_check_failed: bool,
}

impl DeepView for GpuStressResult {
    type V = GpuStressResultView;

    open spec fn deep_view(&self) -> GpuStressResultView {
        GpuStressResultView {
            samples: self.samples.deep_view(),
            aborted: self.aborted,
            abort_reason: self.abort_reason.deep_view(),
            self_check_failed: self.self_check_failed,
        }
    }
}

/// Every phase has a label of its own.
pub proof fn phases_are_told_apart(a: Phase, b: Phase, c: GpuPhase, d: GpuPhase)
    ensures
        a != b ==> a.label_text() != b.label_text(),
        c != d ==> c.label_text() != d.label_text(),
        a == Phase::IdleBaseline <==> a.label_text() == "Idle baseline"@,
        a == Phase::SingleThreadBoost <==> a.label_text() == "Single-thread boost"@,
        a == Phase::AllCoreSustained <==> a.label_text() == "All-core sustained"@,
        a == Phase::Cooldown <==> a.label_text() == "Cooldown"@,
        c == GpuPhase::IdleBaseline <==> c.label_text() == "Idle baseline"@,
        c == GpuPhase::ComputeSustained <==> c.label_text() == "Compute sustained"@,
        c == GpuPhase::Cooldown <==> c.label_text() == "Cooldown"@,
{
    reveal_strlit("Idle baseline");
    reveal_strlit("Single-thread boost");
    reveal_strlit("All-core sustained");
    reveal_strlit("Compute sustained");
    reveal_strlit("Cooldown");
    assert("Idle baseline"@.len() == 13 && "Single-thread boost"@.len() == 19
        && "All-core sustained"@.len() == 18 && "Compute sustained"@.len() == 17
        && "Cooldown"@.len() == 8);
}

} // verus!
