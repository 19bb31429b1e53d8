//! The GPU stress schedule: the same shape as the CPU schedule, with one worker that drives
//! the compute queue; and the vendor telemetry of a sample.
//!
//! All durations and times are in nanoseconds; times are of one monotonic clock.
use vstd::prelude::*;

use crate::measure::Power;
use crate::model::{Reading, ReadingView, Unavailable, UnavailableView};
use crate::probes::adl::{
    Snapshot, ADL_PMLOG_CLK_GFXCLK, ADL_PMLOG_FAN_PERCENTAGE, ADL_PMLOG_FAN_RPM,
    ADL_PMLOG_TEMPERATURE_EDGE, ADL_PMLOG_TEMPERATURE_HOTSPOT, ADL_PMLOG_THROTTLER_STATUS,
};
use crate::probes::nvml::{power_of_milliwatts, ThrottleReasons};
use crate::stress::gpu_kernel::GpuWorkerStats;
use crate::stress::orchestrator::{
    abort_text, check_abort_conditions, PowerStatus, Tick, SECOND,
};
use crate::telemetry::types::{
    GpuPhase, GpuSample, GpuSampleView, GpuStressResult, GpuStressResultView,
};
use crate::win::{error_text, WinError};

verus! {

pub const NVIDIA_VENDOR_ID: u32 = 0x10DE;

pub const AMD_VENDOR_ID: u32 = 0x1002;

/// The lengths of the phases, and the sampler's interval.
#[derive(Debug, Clone, Copy, PartialEq, Eq, Structural)]
pub struct GpuStressConfig {
    pub idle_baseline: u64,
    pub compute_sustained: u64,
    pub cooldown: u64,
    pub sample_interval: u64,
}

impl GpuStressConfig {
    /// The usual schedule: a brief idle reading, nine minutes and 25 seconds of load, and a
    /// cooldown of a minute and a half.
    pub fn standard() -> (c: Self)
        ensures
            c == (GpuStressConfig {
                idle_baseline: (5 * SECOND) as u64,
                compute_sustained: (565 * SECOND) as u64,
                cooldown: (90 * SECOND) as u64,
                sample_interval: 250_000_000,
            }),
    {
        GpuStressConfig {
            idle_baseline: 5 * SECOND,
            compute_sustained: 9 * 60 * SECOND + 25 * SECOND,
            cooldown: 90 * SECOND,
            sample_interval: 250_000_000,
        }
    }
}

// ---------------------------------------------------------------------------
// Telemetry
// ---------------------------------------------------------------------------

/// Whose library reads the sensors of a GPU.
#[derive(Debug, Clone, Copy, PartialEq, Eq, Structural)]
pub enum TelemetryVendor {
    Nvidia,
    Amd,
    Neither,
}

/// Whose library reads the sensors of a GPU of this vendor.
pub fn telemetry_vendor(vendor_id: u32) -> (v: TelemetryVendor)
    ensures
        v == if vendor_id == NVIDIA_VENDOR_ID {
            TelemetryVendor::Nvidia
        } else if vendor_id == AMD_VENDOR_ID {
            TelemetryVendor::Amd
        } else {
            TelemetryVendor::Neither
        },
{
    if vendor_id == NVIDIA_VENDOR_ID {
        TelemetryVendor::Nvidia
    } else if vendor_id == AMD_VENDOR_ID {
        TelemetryVendor::Amd
    } else {
        TelemetryVendor::Neither
    }
}

/// What one sample read from an NVIDIA GPU. The reasons are missing where they could not be
/// read; the other reads say why they failed. Power is in milliwatts.
pub struct NvmlReads {
    pub reasons: Option<u64>,
    pub clock: Result<u32, WinError>,
    pub power_mw: Result<u32, WinError>,
    pub temperature: Result<u32, WinError>,
    pub fan_percent: Result<u32, WinError>,
}

/// What one sample read.
pub enum GpuReads {
    Nvidia(NvmlReads),
    Amd(Snapshot),
    /// The vendor's library is absent, or there is none for the vendor.
    Unavailable,
}

/// One vendor-agnostic snapshot of everything that a sample can read.
pub struct TelemetryReadings {
    pub graphics_clock_mhz: Reading<u32>,
    pub power: Reading<Power>,
    pub edge_temperature_c: Reading<u32>,
    pub hotspot_temperature_c: Reading<u32>,
    pub fan_rpm: Reading<u32>,
    pub fan_percent: Reading<u32>,
    pub sw_thermal_slowdown: Reading<bool>,
    pub hw_thermal_slowdown: Reading<bool>,
    pub sw_power_cap: Reading<bool>,
    pub hw_power_brake: Reading<bool>,
}

/// The mathematical model of [`TelemetryReadings`].
#[verifier::ext_equal]
pub struct TelemetryView {
    pub graphics_clock_mhz: ReadingView<u32>,
    pub power: ReadingView<Power>,
    pub edge_temperature_c: ReadingView<u32>,
    pub hotspot_temperature_c: ReadingView<u32>,
    pub fan_rpm: ReadingView<u32>,
    pub fan_percent: ReadingView<u32>,
    pub sw_thermal_slowdown: ReadingView<bool>,
    pub hw_thermal_slowdown: ReadingView<bool>,
    pub sw_power_cap: ReadingView<bool>,
    pub hw_power_brake: ReadingView<bool>,
}

impl DeepView for TelemetryReadings {
    type V = TelemetryView;

    open spec fn deep_view(&self) -> TelemetryView {
        TelemetryView {
            graphics_clock_mhz: self.graphics_clock_mhz.deep_view(),
            power: self.power.deep_view(),
            edge_temperature_c: self.edge_temperature_c.deep_view(),
            hotspot_temperature_c: self.hotspot_temperature_c.deep_view(),
            fan_rpm: self.fan_rpm.deep_view(),
            fan_percent: self.fan_percent.deep_view(),
            sw_thermal_slowdown: self.sw_thermal_slowdown.deep_view(),
            hw_thermal_slowdown: self.hw_thermal_slowdown.deep_view(),
            sw_power_cap: self.sw_power_cap.deep_view(),
            hw_power_brake: self.hw_power_brake.deep_view(),
        }
    }
}

/// A read as a reading: the value, or the error text.
pub open spec fn reading_of<T>(r: Result<T, WinError>) -> ReadingView<T> {
    match r {
        Ok(v) => ReadingView::value(v),
        Err(e) => ReadingView::failed(error_text(e.context@, e.code)),
    }
}

fn read(r: Result<u32, WinError>) -> (v: Reading<u32>)
    ensures
        v.deep_view() == reading_of(r),
{
    match r {
        Ok(v) => Reading::value(v),
        Err(e) => Reading::failed(e.describe()),
    }
}

fn read_power(r: Result<u32, WinError>) -> (v: Reading<Power>)
    ensures
        v.deep_view() == (match r {
            Ok(mw) => ReadingView::value(Power { microwatts: (mw * 1000) as u64 }),
            Err(e) => ReadingView::failed(error_text(e.context@, e.code)),
        }),
{
    match r {
        Ok(mw) => Reading::value(power_of_milliwatts(mw)),
        Err(e) => Reading::failed(e.describe()),
    }
}

/// One throttle reason as a reading.
pub open spec fn reason_reading(known: bool, set: bool) -> ReadingView<bool> {
    if known {
        ReadingView::value(set)
    } else {
        ReadingView::unsupported()
    }
}

fn reading_bool(known: bool, set: bool) -> (r: Reading<bool>)
    ensures
        r.deep_view() == reason_reading(known, set),
{
    if known {
        Reading::value(set)
    } else {
        Reading::unsupported()
    }
}

/// Why nothing can be read without a vendor library.
pub open spec fn no_library<T>() -> ReadingView<T> {
    ReadingView::missing(
        UnavailableView::VendorLibraryMissing(
            "no vendor telemetry available (NVML/ADL absent, or GPU is neither NVIDIA nor AMD)"@,
        ),
    )
}

fn missing_library<T: DeepView>() -> (r: Reading<T>)
    ensures
        r.deep_view() == no_library::<T::V>(),
{
    Reading::missing(
        Unavailable::VendorLibraryMissing(
            String::from_str(
                "no vendor telemetry available (NVML/ADL absent, or GPU is neither NVIDIA nor AMD)",
            ),
        ),
    )
}

/// The measurements of a sample. NVML has no junction sensor and no fan speed; AMD's single
/// throttle figure is mapped to the hardware's thermal slowdown, as the closest honest fit.
pub open spec fn telemetry_of(reads: GpuReads) -> TelemetryView {
    match reads {
        GpuReads::Nvidia(n) => {
            let known = n.reasons is Some;
            let reasons = ThrottleReasons::of_bits(n.reasons->0);
            TelemetryView {
                graphics_clock_mhz: reading_of(n.clock),
                power: match n.power_mw {
                    Ok(mw) => ReadingView::value(Power { microwatts: (mw * 1000) as u64 }),
                    Err(e) => ReadingView::failed(error_text(e.context@, e.code)),
                },
                edge_temperature_c: reading_of(n.temperature),
                hotspot_temperature_c: ReadingView::unsupported(),
                fan_rpm: ReadingView::unsupported(),
                fan_percent: reading_of(n.fan_percent),
                sw_thermal_slowdown: reason_reading(known, reasons.sw_thermal_slowdown),
                hw_thermal_slowdown: reason_reading(known, reasons.hw_thermal_slowdown),
                sw_power_cap: reason_reading(known, reasons.sw_power_cap),
                hw_power_brake: reason_reading(known, reasons.hw_power_brake),
            }
        },
        GpuReads::Amd(s) => TelemetryView {
            graphics_clock_mhz: ReadingView::from_option(s.value_of(ADL_PMLOG_CLK_GFXCLK)),
            power: match s.watts() {
                Some(w) => ReadingView::value(Power { microwatts: (w * 1_000_000) as u64 }),
                None => ReadingView::unsupported(),
            },
            edge_temperature_c: ReadingView::from_option(s.value_of(ADL_PMLOG_TEMPERATURE_EDGE)),
            hotspot_temperature_c: ReadingView::from_option(
                s.value_of(ADL_PMLOG_TEMPERATURE_HOTSPOT),
            ),
            fan_rpm: ReadingView::from_option(s.value_of(ADL_PMLOG_FAN_RPM)),
            fan_percent: ReadingView::from_option(s.value_of(ADL_PMLOG_FAN_PERCENTAGE)),
            sw_thermal_slowdown: ReadingView::unsupported(),
            hw_thermal_slowdown: match s.value_of(ADL_PMLOG_THROTTLER_STATUS) {
                Some(bits) => ReadingView::value(bits != 0),
                None => ReadingView::unsupported(),
            },
            sw_power_cap: ReadingView::unsupported(),
            hw_power_brake: ReadingView::unsupported(),
        },
        GpuReads::Unavailable => TelemetryView {
            graphics_clock_mhz: no_library(),
            power: no_library(),
            edge_temperature_c: no_library(),
            hotspot_temperature_c: no_library(),
            fan_rpm: no_library(),
            fan_percent: no_library(),
            sw_thermal_slowdown: no_library(),
            hw_thermal_slowdown: no_library(),
            sw_power_cap: no_library(),
            hw_power_brake: no_library(),
        },
    }
}

/// The measurements that follow from what one sample read.
pub fn sample_telemetry(reads: GpuReads) -> (t: TelemetryReadings)
    ensures
        t.deep_view() == telemetry_of(reads),
{
    match reads {
        GpuReads::Nvidia(n) => {
            let known = n.reasons.is_some();
            let reasons = match n.reasons {
                Some(bits) => ThrottleReasons::from_bits(bits),
                None => ThrottleReasons::default(),
            };
            TelemetryReadings {
                graphics_clock_mhz: read(n.clock),
                power: read_power(n.power_mw),
                edge_temperature_c: read(n.temperature),
                hotspot_temperature_c: Reading::unsupported(),
                fan_rpm: Reading::unsupported(),
                fan_percent: read(n.fan_percent),
                sw_thermal_slowdown: reading_bool(known, reasons.sw_thermal_slowdown),
                hw_thermal_slowdown: reading_bool(known, reasons.hw_thermal_slowdown),
                sw_power_cap: reading_bool(known, reasons.sw_power_cap),
                hw_power_brake: reading_bool(known, reasons.hw_power_brake),
            }
        },
        GpuReads::Amd(s) => {
            let hw_thermal_slowdown = match s.throttle_status() {
                Some(t) => Reading::value(t.any_throttling),
                None => Reading::unsupported(),
            };
            TelemetryReadings {
                graphics_clock_mhz: Reading::from(s.graphics_clock_mhz()),
                power: Reading::from(s.power_watts()),
                edge_temperature_c: Reading::from(s.edge_temperature_c()),
                hotspot_temperature_c: Reading::from(s.hotspot_temperature_c()),
                fan_rpm: Reading::from(s.fan_rpm()),
                fan_percent: Reading::from(s.fan_percent()),
                sw_thermal_slowdown: Reading::unsupported(),
                hw_thermal_slowdown,
                sw_power_cap: Reading::unsupported(),
                hw_power_brake: Reading::unsupported(),
            }
        },
        GpuReads::Unavailable => TelemetryReadings {
            graphics_clock_mhz: missing_library(),
            power: missing_library(),
            edge_temperature_c: missing_library(),
            hotspot_temperature_c: missing_library(),
            fan_rpm: missing_library(),
            fan_percent: missing_library(),
            sw_thermal_slowdown: missing_library(),
            hw_thermal_slowdown: missing_library(),
            sw_power_cap: missing_library(),
            hw_power_brake: missing_library(),
        },
    }
}

// ---------------------------------------------------------------------------
// The schedule
// ---------------------------------------------------------------------------

/// A phase that is about to run: what it is, how long it lasts, and whether it loads the GPU.
#[derive(Debug, Clone, Copy, PartialEq, Eq, Structural)]
pub struct GpuPhasePlan {
    pub phase: GpuPhase,
    pub duration: u64,
    pub load: bool,
}

/// The phases of a run, in order. Only the one in the middle loads the GPU.
pub open spec fn plan_of(config: GpuStressConfig, i: int) -> GpuPhasePlan {
    if i == 0 {
        GpuPhasePlan { phase: GpuPhase::IdleBaseline, duration: config.idle_baseline, load: false }
    } else if i == 1 {
        GpuPhasePlan {
            phase: GpuPhase::ComputeSustained,
            duration: config.compute_sustained,
            load: true,
        }
    } else {
        GpuPhasePlan { phase: GpuPhase::Cooldown, duration: config.cooldown, load: false }
    }
}

/// A run under way.
pub struct GpuRun {
    pub config: GpuStressConfig,
    /// How many phases have begun.
    pub begun: u8,
    /// When the current phase began.
    pub phase_start: u64,
    pub samples: Vec<GpuSample>,
    pub abort: Option<String>,
    pub self_check_failed: bool,
}

/// The mathematical model of [`GpuRun`].
#[verifier::ext_equal]
pub struct GpuRunView {
    pub config: GpuStressConfig,
    pub begun: int,
    pub phase_start: u64,
    pub samples: Seq<GpuSampleView>,
    pub abort: Option<Seq<char>>,
    pub self_check_failed: bool,
}

impl DeepView for GpuRun {
    type V = GpuRunView;

    open spec fn deep_view(&self) -> GpuRunView {
        GpuRunView {
            config: self.config,
            begun: self.begun as int,
            phase_start: self.phase_start,
            samples: self.samples.deep_view(),
            abort: self.abort.deep_view(),
            self_check_failed: self.self_check_failed,
        }
    }
}

impl GpuRunView {
    /// At most three phases have begun.
    pub open spec fn wf(self) -> bool {
        0 <= self.begun <= 3
    }

    /// A run before its first phase.
    pub open spec fn fresh(config: GpuStressConfig) -> GpuRunView {
        GpuRunView {
            config,
            begun: 0,
            phase_start: 0,
            samples: seq![],
            abort: None,
            self_check_failed: false,
        }
    }

    /// The phase that has begun last.
    pub open spec fn current(self) -> GpuPhasePlan {
        plan_of(self.config, self.begun - 1)
    }

    /// The phase to run next: none after an abort, after the last phase, or when the run was
    /// cancelled.
    pub open spec fn next_plan(self, cancelled: bool) -> Option<GpuPhasePlan> {
        if self.abort is Some || self.begun >= 3 || cancelled {
            None
        } else {
            Some(plan_of(self.config, self.begun))
        }
    }

    /// The run after it was asked for its next phase.
    pub open spec fn after_next(self, cancelled: bool, now: u64) -> GpuRunView {
        if self.abort is Some || self.begun >= 3 {
            self
        } else if cancelled {
            GpuRunView { abort: Some("cancelled by user"@), ..self }
        } else {
            GpuRunView { begun: self.begun + 1, phase_start: now, ..self }
        }
    }

    /// What to do at a tick. The end of the phase comes before an abort, and cancellation
    /// before the state of the battery.
    pub open spec fn tick(self, now: u64, cancelled: bool, power: Option<PowerStatus>) -> Tick {
        if now - self.phase_start >= self.current().duration {
            Tick::PhaseOver
        } else if cancelled || abort_text(power) is Some {
            Tick::Stop
        } else {
            Tick::Sample
        }
    }

    /// The run after a tick.
    pub open spec fn after_tick(self, now: u64, cancelled: bool, power: Option<PowerStatus>) -> GpuRunView {
        if self.tick(now, cancelled, power) != Tick::Stop {
            self
        } else if cancelled {
            GpuRunView { abort: Some("cancelled by user"@), ..self }
        } else {
            GpuRunView { abort: abort_text(power), ..self }
        }
    }
}

/// The sample that a tick records. A phase without a worker has no dispatches and nothing to
/// check.
pub open spec fn sample_at(
    run: GpuRunView,
    elapsed_ms: u64,
    t: TelemetryView,
    worker: Option<GpuWorkerStats>,
) -> GpuSampleView {
    GpuSampleView {
        elapsed_ms,
        phase: run.current().phase,
        graphics_clock_mhz: t.graphics_clock_mhz,
        power: t.power,
        edge_temperature_c: t.edge_temperature_c,
        hotspot_temperature_c: t.hotspot_temperature_c,
        fan_rpm: t.fan_rpm,
        fan_percent: t.fan_percent,
        sw_thermal_slowdown: t.sw_thermal_slowdown,
        hw_thermal_slowdown: t.hw_thermal_slowdown,
        sw_power_cap: t.sw_power_cap,
        hw_power_brake: t.hw_power_brake,
        self_check_ok: match worker {
            Some(w) => Some(!w.fault),
            None => None,
        },
        dispatches_completed: match worker {
            Some(w) => w.dispatches,
            None => 0,
        },
    }
}

impl GpuRun {
    /// A run with this schedule.
    pub fn new(config: GpuStressConfig) -> (r: Self)
        ensures
            r.deep_view() == GpuRunView::fresh(config),
            r.deep_view().wf(),
    {
        let r = GpuRun {
            config,
            begun: 0,
            phase_start: 0,
            samples: Vec::new(),
            abort: None,
            self_check_failed: false,
        };
        assert(r.deep_view() == GpuRunView::fresh(config));
        r
    }

    fn plan(&self, i: u8) -> (p: GpuPhasePlan)
        requires
            i < 3,
        ensures
            p == plan_of(self.config, i as int),
    {
        if i == 0 {
            GpuPhasePlan {
                phase: GpuPhase::IdleBaseline,
                duration: self.config.idle_baseline,
                load: false,
            }
        } else if i == 1 {
            GpuPhasePlan {
                phase: GpuPhase::ComputeSustained,
                duration: self.config.compute_sustained,
                load: true,
            }
        } else {
            GpuPhasePlan { phase: GpuPhase::Cooldown, duration: self.config.cooldown, load: false }
        }
    }

    /// The phase to run next, which begins at `now`; nothing when the run is over.
    pub fn next_phase(&mut self, cancelled: bool, now: u64) -> (r: Option<GpuPhasePlan>)
        requires
            old(self).deep_view().wf(),
        ensures
            r == old(self).deep_view().next_plan(cancelled),
            final(self).deep_view() == old(self).deep_view().after_next(cancelled, now),
            final(self).deep_view().wf(),
    {
        if self.abort.is_some() || self.begun >= 3 {
            return None;
        }
        if cancelled {
            self.abort = Some(String::from_str("cancelled by user"));
            return None;
        }
        let p = self.plan(self.begun);
        self.begun = self.begun + 1;
        self.phase_start = now;
        Some(p)
    }

    /// What to do at a tick of the sampler.
    pub fn tick(&mut self, now: u64, cancelled: bool, power: Option<PowerStatus>) -> (t: Tick)
        requires
            old(self).deep_view().wf(),
            old(self).begun > 0,
        ensures
            t == old(self).deep_view().tick(now, cancelled, power),
            final(self).deep_view() == old(self).deep_view().after_tick(now, cancelled, power),
            final(self).deep_view().wf(),
    {
        let p = self.plan(self.begun - 1);
        if now >= self.phase_start && now - self.phase_start >= p.duration {
            return Tick::PhaseOver;
        }
        if cancelled {
            self.abort = Some(String::from_str("cancelled by user"));
            return Tick::Stop;
        }
        match check_abort_conditions(power) {
            Some(reason) => {
                self.abort = Some(reason);
                Tick::Stop
            },
            None => Tick::Sample,
        }
    }

    /// Record a sample, `elapsed_ms` after the run began. `worker` holds the counters of the
    /// worker of the current phase, where it has one.
    pub fn record(&mut self, elapsed_ms: u64, t: TelemetryReadings, worker: Option<GpuWorkerStats>)
        requires
            old(self).deep_view().wf(),
            old(self).begun > 0,
        ensures
            final(self).deep_view() == (GpuRunView {
                samples: old(self).deep_view().samples.push(
                    sample_at(old(self).deep_view(), elapsed_ms, t.deep_view(), worker),
                ),
                self_check_failed: old(self).self_check_failed || (worker matches Some(w)
                    && w.fault),
                ..old(self).deep_view()
            }),
            final(self).deep_view().wf(),
    {
        let (dispatches, fault): (u64, bool) = match worker {
            Some(w) => (w.dispatches, w.fault),
            None => (0, false),
        };
        if fault {
            self.self_check_failed = true;
        }
        let phase = self.plan(self.begun - 1).phase;
        let ghost before = self.samples.deep_view();
        let sample = GpuSample {
            elapsed_ms,
            phase,
            graphics_clock_mhz: t.graphics_clock_mhz,
            power: t.power,
            edge_temperature_c: t.edge_temperature_c,
            hotspot_temperature_c: t.hotspot_temperature_c,
            fan_rpm: t.fan_rpm,
            fan_percent: t.fan_percent,
            sw_thermal_slowdown: t.sw_thermal_slowdown,
            hw_thermal_slowdown: t.hw_thermal_slowdown,
            sw_power_cap: t.sw_power_cap,
            hw_power_brake: t.hw_power_brake,
            self_check_ok: match worker {
                Some(_) => Some(!fault),
                None => None,
            },
            dispatches_completed: dispatches,
        };
        let ghost added = sample.deep_view();
        self.samples.push(sample);
        assert(self.samples.deep_view() == before.push(added));
    }

    /// The result of the run.
    pub fn finish(self) -> (r: GpuStressResult)
        ensures
            r.deep_view() == (GpuStressResultView {
                samples: self.deep_view().samples,
                aborted: self.abort is Some,
                abort_reason: self.deep_view().abort,
                self_check_failed: self.self_check_failed,
            }),
    {
        GpuStressResult {
            samples: self.samples,
            aborted: self.abort.is_some(),
            abort_reason: self.abort,
            self_check_failed: self.self_check_failed,
        }
    }
}

// ---------------------------------------------------------------------------
// Laws
// ---------------------------------------------------------------------------

/// A GPU without a vendor library still produces samples: every value is missing, and says
/// why.
pub proof fn a_missing_library_explains_itself()
    ensures
        telemetry_of(GpuReads::Unavailable).graphics_clock_mhz == no_library::<u32>(),
        telemetry_of(GpuReads::Unavailable).power == no_library::<Power>(),
        telemetry_of(GpuReads::Unavailable).sw_thermal_slowdown == no_library::<bool>(),
        no_library::<u32>() matches ReadingView::Missing { ok, reason, note } && !ok
            && reason is VendorLibraryMissing && note == reason.describe(),
{
}

/// The junction temperature is never made up from the edge temperature.
pub proof fn an_edge_reading_is_no_hotspot(n: NvmlReads)
    ensures
        telemetry_of(GpuReads::Nvidia(n)).hotspot_temperature_c.is_not_offered(),
{
}

/// A run that nobody cancels goes through its three phases in order, loads the GPU in the
/// second one only, and then is over.
pub proof fn an_undisturbed_run_goes_through_every_phase(
    config: GpuStressConfig,
    t0: u64,
    t1: u64,
    t2: u64,
)
    ensures
        ({
            let r0 = GpuRunView::fresh(config);
            let r1 = r0.after_next(false, t0);
            let r2 = r1.after_next(false, t1);
            let r3 = r2.after_next(false, t2);
            &&& (r0.next_plan(false) matches Some(p) && p.phase == GpuPhase::IdleBaseline && !p.load)
            &&& (r1.next_plan(false) matches Some(p) && p.phase == GpuPhase::ComputeSustained
                && p.load)
            &&& (r2.next_plan(false) matches Some(p) && p.phase == GpuPhase::Cooldown && !p.load)
            &&& r3.next_plan(false) is None
            &&& r3.abort is None
        }),
{
}

/// An aborted run starts no further phase, and its reason stands.
pub proof fn an_abort_is_final(run: GpuRunView, cancelled: bool, now: u64)
    requires
        run.abort is Some,
    ensures
        run.next_plan(cancelled) is None,
        run.after_next(cancelled, now) == run,
{
}

/// A cancelled run starts no phase and takes no sample.
pub proof fn cancelling_stops_the_run(run: GpuRunView, now: u64, power: Option<PowerStatus>)
    requires
        run.abort is None,
        run.begun < 3,
    ensures
        run.next_plan(true) is None,
        run.after_next(true, now).abort == Some("cancelled by user"@),
        run.tick(now, true, power) != Tick::Sample,
{
}

// ---------------------------------------------------------------------------
// What is read, and what is recorded
// ---------------------------------------------------------------------------

/// The reason that a read which failed leaves behind: the text of its error.
pub open spec fn failure(e: WinError) -> UnavailableView {
    UnavailableView::QueryFailed(error_text(e.context@, e.code))
}

/// What an NVIDIA GPU shows: each read as it came back, or its error; power in microwatts, a
/// thousand to the milliwatt; and each throttle reason by its own bit, where the reasons could be
/// read at all.
pub proof fn an_nvidia_gpu_shows_its_reads(n: NvmlReads)
    ensures
        ({
            let t = telemetry_of(GpuReads::Nvidia(n));
            &&& match n.clock {
                Ok(v) => t.graphics_clock_mhz.get() == Some(v),
                Err(e) => t.graphics_clock_mhz.is_without(failure(e)),
            }
            &&& match n.power_mw {
                Ok(v) => t.power.get() matches Some(p) && p.microwatts == 1000 * v,
                Err(e) => t.power.is_without(failure(e)),
            }
            &&& match n.temperature {
                Ok(v) => t.edge_temperature_c.get() == Some(v),
                Err(e) => t.edge_temperature_c.is_without(failure(e)),
            }
            &&& match n.fan_percent {
                Ok(v) => t.fan_percent.get() == Some(v),
                Err(e) => t.fan_percent.is_without(failure(e)),
            }
            &&& t.fan_rpm.is_not_offered()
            &&& t.hotspot_temperature_c.is_not_offered()
            &&& match n.reasons {
                Some(bits) => {
                    &&& t.sw_power_cap.get() == Some(bits as int / 4 % 2 == 1)
                    &&& t.sw_thermal_slowdown.get() == Some(bits as int / 32 % 2 == 1)
                    &&& t.hw_thermal_slowdown.get() == Some(bits as int / 64 % 2 == 1)
                    &&& t.hw_power_brake.get() == Some(bits as int / 128 % 2 == 1)
                },
                None => t.sw_power_cap.is_not_offered() && t.sw_thermal_slowdown.is_not_offered()
                    && t.hw_thermal_slowdown.is_not_offered() && t.hw_power_brake.is_not_offered(),
            }
        }),
{
    if let Some(bits) = n.reasons {
        crate::probes::nvml::every_reason_has_its_bit(bits);
    }
}

/// What an AMD GPU shows: each reading from its own sensor; power in microwatts, a million to the
/// watt; and any throttling as a thermal slowdown of the hardware, the other reasons as unknown.
pub proof fn an_amd_gpu_shows_its_sensors(s: Snapshot)
    ensures
        ({
            let t = telemetry_of(GpuReads::Amd(s));
            &&& t.graphics_clock_mhz.shows(s.value_of(1))
            &&& t.edge_temperature_c.shows(s.value_of(8))
            &&& t.hotspot_temperature_c.shows(s.value_of(27))
            &&& t.fan_rpm.shows(s.value_of(14))
            &&& t.fan_percent.shows(s.value_of(15))
            &&& match s.value_of(23) {
                Some(w) => t.power.get() matches Some(p) && p.microwatts == 1_000_000 * w,
                None => match s.value_of(30) {
                    Some(w) => t.power.get() matches Some(p) && p.microwatts == 1_000_000 * w,
                    None => t.power.is_not_offered(),
                },
            }
            &&& match s.value_of(35) {
                Some(bits) => t.hw_thermal_slowdown.get() == Some(bits != 0),
                None => t.hw_thermal_slowdown.is_not_offered(),
            }
            &&& t.sw_thermal_slowdown.is_not_offered() && t.sw_power_cap.is_not_offered()
                && t.hw_power_brake.is_not_offered()
        }),
{
}

/// The phases of a run, by how many have begun: idle, under load, and cooling down, each for as
/// long as the schedule says.
pub proof fn every_phase_is_as_scheduled(run: GpuRunView)
    requires
        1 <= run.begun <= 3,
    ensures
        ({
            let p = run.current();
            let c = run.config;
            &&& run.begun == 1 ==> p.phase == GpuPhase::IdleBaseline && p.duration
                == c.idle_baseline && !p.load
            &&& run.begun == 2 ==> p.phase == GpuPhase::ComputeSustained && p.duration
                == c.compute_sustained && p.load
            &&& run.begun == 3 ==> p.phase == GpuPhase::Cooldown && p.duration == c.cooldown
                && !p.load
        }),
{
}

/// What a tick does: at the end of the phase the phase is over, whatever else; before that a
/// cancelled run stops and says so, a run on a low battery stops and says that, and any other
/// takes a sample and is left as it is.
pub proof fn a_tick_decides_in_order(
    run: GpuRunView,
    now: u64,
    cancelled: bool,
    power: Option<PowerStatus>,
)
    ensures
        ({
            let over = now >= run.phase_start + run.current().duration;
            let low = power matches Some(p) && p.ac_line_status == 0 && p.battery_life_percent < 20;
            let t = run.tick(now, cancelled, power);
            let after = run.after_tick(now, cancelled, power);
            &&& t == Tick::PhaseOver <==> over
            &&& t == Tick::Stop <==> !over && (cancelled || low)
            &&& t == Tick::Sample <==> !over && !cancelled && !low
            &&& t != Tick::Stop ==> after == run
            &&& t == Tick::Stop && cancelled ==> after.abort == Some("cancelled by user"@)
            &&& t == Tick::Stop && !cancelled ==> after.abort is Some && after.abort == abort_text(
                power,
            )
            &&& after.begun == run.begun && after.phase_start == run.phase_start && after.samples
                == run.samples && after.self_check_failed == run.self_check_failed && after.config
                == run.config
        }),
{
}

/// Asking for the next phase begins it now, once and only while phases are left.
pub proof fn the_next_phase_begins_now(run: GpuRunView, now: u64)
    requires
        run.abort is None,
        0 <= run.begun < 3,
    ensures
        ({
            let after = run.after_next(false, now);
            &&& after.begun == run.begun + 1
            &&& after.phase_start == now
            &&& run.next_plan(false) == Some(after.current())
            &&& after.samples == run.samples && after.abort is None && after.self_check_failed
                == run.self_check_failed
        }),
{
}

/// What a sample records: the time, the phase, every reading as it is, and the worker's dispatches
/// and whether it has seen a fault; without a worker there are none and there is no verdict.
pub proof fn a_sample_records_what_was_read(
    run: GpuRunView,
    elapsed_ms: u64,
    t: TelemetryView,
    worker: Option<GpuWorkerStats>,
)
    ensures
        ({
            let s = sample_at(run, elapsed_ms, t, worker);
            &&& s.elapsed_ms == elapsed_ms
            &&& s.phase == run.current().phase
            &&& s.graphics_clock_mhz == t.graphics_clock_mhz
            &&& s.power == t.power
            &&& s.edge_temperature_c == t.edge_temperature_c
            &&& s.hotspot_temperature_c == t.hotspot_temperature_c
            &&& s.fan_rpm == t.fan_rpm
            &&& s.fan_percent == t.fan_percent
            &&& s.sw_thermal_slowdown == t.sw_thermal_slowdown
            &&& s.hw_thermal_slowdown == t.hw_thermal_slowdown
            &&& s.sw_power_cap == t.sw_power_cap
            &&& s.hw_power_brake == t.hw_power_brake
            &&& worker matches Some(w) ==> s.dispatches_completed == w.dispatches && s.self_check_ok
                == Some(!w.fault)
            &&& worker is None ==> s.dispatches_completed == 0 && s.self_check_ok is None
        }),
{
}

/// Telemetry goes by the vendor that the adapter's own report names: NVIDIA's library for NVIDIA,
/// AMD's for AMD's graphics, and none for any other.
pub proof fn telemetry_goes_by_the_vendor(vendor_id: u32, v: TelemetryVendor)
    requires
        call_ensures(telemetry_vendor, (vendor_id,), v),
    ensures
        v == TelemetryVendor::Nvidia <==> crate::probes::gpu::vendor_text(vendor_id) == "NVIDIA"@,
        v == TelemetryVendor::Amd <==> vendor_id == 0x1002,
        v == TelemetryVendor::Amd ==> crate::probes::gpu::vendor_text(vendor_id) == "AMD"@,
{
    crate::probes::gpu::vendors_are_told_apart(vendor_id, 0x10DE);
}

/// A finished run hands out every sample that it recorded, and is aborted exactly where it has a
/// reason for it.
pub proof fn a_run_ends_with_what_it_recorded(run: GpuRun, r: GpuStressResult)
    requires
        call_ensures(GpuRun::finish, (run,), r),
    ensures
        r.deep_view().samples == run.deep_view().samples,
        r.aborted <==> r.abort_reason is Some,
        r.deep_view().abort_reason == run.deep_view().abort,
        r.self_check_failed == run.self_check_failed,
{
}

/// A fresh run has its schedule and nothing else: no phase, no sample, no fault and no reason to
/// stop.
pub proof fn a_fresh_run_has_only_its_schedule(config: GpuStressConfig)
    ensures
        ({
            let run = GpuRunView::fresh(config);
            &&& run.config == config
            &&& run.begun == 0 && run.phase_start == 0
            &&& run.samples.len() == 0
            &&& run.abort is None && !run.self_check_failed
        }),
{
}

/// A run that is over stays as it is, whatever it is asked; one that is cancelled between two
/// phases ends with that as its reason, and loses nothing that it recorded.
pub proof fn a_run_that_is_over_stays_as_it_is(run: GpuRunView, cancelled: bool, now: u64)
    ensures
        run.abort is Some || run.begun >= 3 ==> run.after_next(cancelled, now) == run
            && run.next_plan(cancelled) is None,
        run.abort is None && run.begun < 3 ==> {
            let after = run.after_next(true, now);
            &&& after.abort == Some("cancelled by user"@)
            &&& run.next_plan(true) is None
            &&& after.begun == run.begun && after.samples == run.samples
        },
{
}

} // verus!
