//! Turning raw register reads into effective clock, power and temperature.
//!
//! Every rate is a delta against the previous sample, so the state between samples is kept
//! here, once, for the stress sampler and for the live monitor alike.
use vstd::prelude::*;

use crate::analysis::stress_findings::{base_clock_mhz_for, base_clock_of, CpuSpec, CpuSpecView};
use crate::measure::{cap, capped, Celsius, Frequency, Power};
use crate::model::{Reading, ReadingView, Unavailable, UnavailableView};
use crate::pawnio::amd_msr::{
    decode_power_units, power_units, tctl_offset, tctl_offset_celsius, zen_eighths,
    zen_temperature_celsius,
};
use crate::pawnio::intel_msr::{
    decode_power_limits, decode_rapl_units, decode_thermal_status, decode_tjmax, divisor,
    effective_clock, effective_clock_mhz, energy_count, power_limits, rapl_units, thermal_status,
    tjmax, unit_divisor,
};
use crate::probes::cpu::{CpuTopology, CpuTopologyView, CpuVendor};
use crate::text::lowercase;
use crate::text::number::{nearest, nearest_is_near, round_ratio};
use crate::win::{error_text, WinError};

verus! {

/// The telemetry values that one sample of the registers produces.
#[derive(Debug, Clone)]
pub struct CpuTelemetryReadings {
    pub effective_clock: Reading<Frequency>,
    pub package_power: Reading<Power>,
    pub configured_pl1: Reading<Power>,
    pub configured_pl2: Reading<Power>,
    pub package_temperature_c: Reading<i16>,
    pub thermal_throttling: Reading<bool>,
}

/// The mathematical model of [`CpuTelemetryReadings`].
#[verifier::ext_equal]
pub struct CpuTelemetryView {
    pub effective_clock: ReadingView<Frequency>,
    pub package_power: ReadingView<Power>,
    pub configured_pl1: ReadingView<Power>,
    pub configured_pl2: ReadingView<Power>,
    pub package_temperature_c: ReadingView<i16>,
    pub thermal_throttling: ReadingView<bool>,
}

impl DeepView for CpuTelemetryReadings {
    type V = CpuTelemetryView;

    open spec fn deep_view(&self) -> CpuTelemetryView {
        CpuTelemetryView {
            effective_clock: self.effective_clock.deep_view(),
            package_power: self.package_power.deep_view(),
            configured_pl1: self.configured_pl1.deep_view(),
            configured_pl2: self.configured_pl2.deep_view(),
            package_temperature_c: self.package_temperature_c.deep_view(),
            thermal_throttling: self.thermal_throttling.deep_view(),
        }
    }
}

/// Where register reads come from.
#[derive(Debug, PartialEq, Eq)]
pub enum MsrSource {
    Intel,
    Amd,
    /// Carries the real reason why telemetry is unavailable: "the library never loaded" and
    /// "it loaded but opening a session failed" are different failures with different fixes.
    Unavailable(Unavailable),
}

/// The mathematical model of [`MsrSource`].
#[verifier::ext_equal]
pub enum MsrSourceView {
    Intel,
    Amd,
    Unavailable(UnavailableView),
}

impl DeepView for MsrSource {
    type V = MsrSourceView;

    open spec fn deep_view(&self) -> MsrSourceView {
        match self {
            MsrSource::Intel => MsrSourceView::Intel,
            MsrSource::Amd => MsrSourceView::Amd,
            MsrSource::Unavailable(reason) => MsrSourceView::Unavailable(reason.deep_view()),
        }
    }
}

/// The source on a part of this vendor, given how loading the library went and how opening a
/// session with the vendor's module went.
pub open spec fn source_of(
    vendor: CpuVendor,
    library: Result<(), WinError>,
    session: Result<(), WinError>,
) -> MsrSourceView {
    match library {
        Err(e) => MsrSourceView::Unavailable(
            UnavailableView::DriverMissing("PawnIOLib.dll: "@ + error_text(e.context@, e.code)),
        ),
        Ok(_) => match (vendor, session) {
            (CpuVendor::Other, _) => MsrSourceView::Unavailable(
                UnavailableView::NotSupportedByHardware,
            ),
            (_, Err(e)) => MsrSourceView::Unavailable(
                UnavailableView::QueryFailed(
                    "PawnIO session/module load failed: "@ + error_text(e.context@, e.code),
                ),
            ),
            (CpuVendor::Intel, Ok(_)) => MsrSourceView::Intel,
            (CpuVendor::Amd, Ok(_)) => MsrSourceView::Amd,
        },
    }
}

impl MsrSource {
    /// The source on a part of this vendor. `library` says how loading the driver library
    /// went; `session` says how opening a session with the vendor's module went, and is
    /// looked at only where there is a library and a module for the vendor.
    pub fn open(
        vendor: CpuVendor,
        library: Result<(), WinError>,
        session: Result<(), WinError>,
    ) -> (s: Self)
        ensures
            s.deep_view() == source_of(vendor, library, session),
    {
        if let Err(e) = library {
            return MsrSource::Unavailable(
                Unavailable::DriverMissing(
                    String::from_str("PawnIOLib.dll: ").concat(e.describe().as_str()),
                ),
            );
        }
        match vendor {
            CpuVendor::Other => MsrSource::Unavailable(Unavailable::NotSupportedByHardware),
            CpuVendor::Intel => match session {
                Ok(_) => MsrSource::Intel,
                Err(e) => Self::session_failed(&e),
            },
            CpuVendor::Amd => match session {
                Ok(_) => MsrSource::Amd,
                Err(e) => Self::session_failed(&e),
            },
        }
    }

    fn session_failed(e: &WinError) -> (s: Self)
        ensures
            s.deep_view() == MsrSourceView::Unavailable(
                UnavailableView::QueryFailed(
                    "PawnIO session/module load failed: "@ + error_text(e.context@, e.code),
                ),
            ),
    {
        MsrSource::Unavailable(
            Unavailable::QueryFailed(
                String::from_str("PawnIO session/module load failed: ").concat(
                    e.describe().as_str(),
                ),
            ),
        )
    }
}

/// What one sample read from an Intel part: nothing where a read failed.
#[derive(Debug, Clone, Copy)]
pub struct IntelReads {
    pub aperf: Option<u64>,
    pub mperf: Option<u64>,
    pub power_unit: Option<u64>,
    pub energy: Option<u64>,
    pub power_limit: Option<u64>,
    pub thermal_status: Option<u64>,
}

/// What one sample read from an AMD part: nothing where a register read failed. Temperature
/// comes through PCI config space, and its failure says why.
#[derive(Debug)]
pub struct AmdReads {
    pub aperf: Option<u64>,
    pub mperf: Option<u64>,
    pub power_unit: Option<u64>,
    pub energy: Option<u64>,
    pub temperature: Result<u32, WinError>,
}

/// What one sample read.
pub enum MsrReads {
    Intel(IntelReads),
    Amd(AmdReads),
    Unavailable(Unavailable),
}

/// What is remembered between samples.
#[derive(Debug, Clone, Copy, PartialEq, Eq, Structural)]
pub struct TelemetryState {
    pub prev_aperf: Option<u64>,
    pub prev_mperf: Option<u64>,
    pub prev_energy_raw: Option<u32>,
    /// When the energy counter was last read, in nanoseconds of a monotonic clock.
    pub prev_energy_at: Option<u64>,
    pub tjmax: Option<u8>,
    /// Nothing when no rated base clock could be established for this part, in which case the
    /// effective-clock reading reports why rather than emitting a number.
    pub base_clock_mhz: Option<u32>,
    /// The correction from reported to true temperature for this part; zero for most.
    pub tctl_offset: Celsius,
}

/// The base clock that telemetry goes by: the one the part itself reports, else the one in
/// the table of rated parts.
pub open spec fn nominal_clock(topology: CpuTopologyView, specs: Seq<CpuSpecView>) -> Option<u32> {
    match topology.base_clock_mhz.get() {
        Some(mhz) => Some(mhz),
        None => match topology.brand_string.get() {
            Some(brand) => base_clock_of(specs, lowercase(brand)),
            None => None,
        },
    }
}

/// The state before the first sample.
pub open spec fn fresh_state(
    source: MsrSourceView,
    topology: CpuTopologyView,
    specs: Seq<CpuSpecView>,
    temperature_target: Option<u64>,
) -> TelemetryState {
    TelemetryState {
        prev_aperf: None,
        prev_mperf: None,
        prev_energy_raw: None,
        prev_energy_at: None,
        tjmax: match (source, temperature_target) {
            (MsrSourceView::Intel, Some(raw)) => Some(tjmax(raw)),
            _ => None,
        },
        base_clock_mhz: nominal_clock(topology, specs),
        tctl_offset: Celsius {
            eighths: (match topology.brand_string.get() {
                Some(brand) => 8 * tctl_offset(lowercase(brand)),
                None => 0,
            }) as i32,
        },
    }
}

/// The clock over the window from the last sample to this one.
pub open spec fn clock_reading(s: TelemetryState, aperf: Option<u64>, mperf: Option<u64>) -> ReadingView<
    Frequency,
> {
    match (aperf, mperf) {
        (Some(a), Some(m)) => match (s.prev_aperf, s.prev_mperf, s.base_clock_mhz) {
            (Some(pa), Some(pm), Some(base)) => ReadingView::value(
                effective_clock(a.wrapping_sub(pa), m.wrapping_sub(pm), base),
            ),
            (Some(_), Some(_), None) => ReadingView::failed(
                "no rated base clock for this CPU, so the APERF/MPERF ratio cannot be converted to MHz"@,
            ),
            _ => ReadingView::failed("first sample of the run"@),
        },
        _ => ReadingView::unsupported(),
    }
}

/// The state after the performance counters were read.
pub open spec fn after_clock(s: TelemetryState, aperf: Option<u64>, mperf: Option<u64>) -> TelemetryState {
    match (aperf, mperf) {
        (Some(a), Some(m)) => TelemetryState { prev_aperf: Some(a), prev_mperf: Some(m), ..s },
        _ => s,
    }
}

/// The average power over the window from the last reading of the energy counter, which
/// counts in units of `1 / 2^joule_exponent` joule and wraps at 32 bits.
pub open spec fn average_power(delta: u32, joule_exponent: u8, nanos: nat) -> Power {
    Power {
        microwatts: capped(
            nearest(
                (delta * 1_000_000_000_000_000) as nat,
                (unit_divisor(joule_exponent) * nanos) as nat,
            ),
        ),
    }
}

/// The power over the window from the last sample to this one.
pub open spec fn power_reading(
    s: TelemetryState,
    joule_exponent: Option<u8>,
    energy: Option<u32>,
    now: u64,
) -> ReadingView<Power> {
    match (joule_exponent, energy) {
        (Some(exponent), Some(raw)) => match (s.prev_energy_raw, s.prev_energy_at) {
            (Some(prev), Some(at)) => if now > at {
                ReadingView::value(
                    average_power(raw.wrapping_sub(prev), exponent, (now - at) as nat),
                )
            } else {
                ReadingView::failed("zero-duration sample interval"@)
            },
            _ => ReadingView::failed("first sample of the run"@),
        },
        _ => ReadingView::unsupported(),
    }
}

/// The state after the energy counter was read.
pub open spec fn after_power(
    s: TelemetryState,
    joule_exponent: Option<u8>,
    energy: Option<u32>,
    now: u64,
) -> TelemetryState {
    match (joule_exponent, energy) {
        (Some(_), Some(raw)) => TelemetryState {
            prev_energy_raw: Some(raw),
            prev_energy_at: Some(now),
            ..s
        },
        _ => s,
    }
}

/// The low word of an energy register.
pub open spec fn energy_word(raw: Option<u64>) -> Option<u32> {
    match raw {
        Some(r) => Some((r & 0xFFFF_FFFF) as u32),
        None => None,
    }
}

/// The exponent of the energy unit on an Intel part.
pub open spec fn intel_joules(raw: Option<u64>) -> Option<u8> {
    match raw {
        Some(r) => Some(rapl_units(r).joule_exponent),
        None => None,
    }
}

/// The exponent of the energy unit on an AMD part.
pub open spec fn amd_joules(raw: Option<u64>) -> Option<u8> {
    match raw {
        Some(r) => Some(power_units(r).joule_exponent),
        None => None,
    }
}

/// The measurements of a sample on an Intel part.
pub open spec fn intel_sample(s: TelemetryState, r: IntelReads, now: u64) -> CpuTelemetryView {
    let limits = match (r.power_unit, r.power_limit) {
        (Some(unit), Some(limit)) => Some(power_limits(limit, rapl_units(unit).watt_exponent)),
        _ => None,
    };
    let thermal = match (s.tjmax, r.thermal_status) {
        (Some(tj), Some(raw)) => Some(thermal_status(raw, tj)),
        _ => None,
    };
    CpuTelemetryView {
        effective_clock: clock_reading(s, r.aperf, r.mperf),
        package_power: power_reading(s, intel_joules(r.power_unit), energy_word(r.energy), now),
        configured_pl1: match limits {
            Some(l) => ReadingView::value(l.pl1),
            None => ReadingView::unsupported(),
        },
        configured_pl2: match limits {
            Some(l) => ReadingView::value(l.pl2),
            None => ReadingView::unsupported(),
        },
        package_temperature_c: match thermal {
            Some(t) => ReadingView::value(t.temperature_celsius),
            None => ReadingView::unsupported(),
        },
        thermal_throttling: match thermal {
            Some(t) => ReadingView::value(t.throttling_now),
            None => ReadingView::unsupported(),
        },
    }
}

/// The measurements of a sample on an AMD part, which has no power-limit and no
/// thermal-throttle register.
pub open spec fn amd_sample(s: TelemetryState, r: AmdReads, now: u64) -> CpuTelemetryView {
    CpuTelemetryView {
        effective_clock: clock_reading(s, r.aperf, r.mperf),
        package_power: power_reading(s, amd_joules(r.power_unit), energy_word(r.energy), now),
        configured_pl1: ReadingView::unsupported(),
        configured_pl2: ReadingView::unsupported(),
        package_temperature_c: match r.temperature {
            Ok(raw) => ReadingView::value(
                (Celsius { eighths: zen_eighths(raw, s.tctl_offset) as i32 }).rounded() as i16,
            ),
            Err(e) => ReadingView::failed(error_text(e.context@, e.code)),
        },
        thermal_throttling: ReadingView::unsupported(),
    }
}

/// The measurements of a sample.
pub open spec fn sample_of(s: TelemetryState, reads: MsrReads, now: u64) -> CpuTelemetryView {
    match reads {
        MsrReads::Intel(r) => intel_sample(s, r, now),
        MsrReads::Amd(r) => amd_sample(s, r, now),
        MsrReads::Unavailable(reason) => CpuTelemetryView {
            effective_clock: ReadingView::missing(reason.deep_view()),
            package_power: ReadingView::missing(reason.deep_view()),
            configured_pl1: ReadingView::missing(reason.deep_view()),
            configured_pl2: ReadingView::missing(reason.deep_view()),
            package_temperature_c: ReadingView::missing(reason.deep_view()),
            thermal_throttling: ReadingView::missing(reason.deep_view()),
        },
    }
}

/// The state after a sample.
pub open spec fn state_after(s: TelemetryState, reads: MsrReads, now: u64) -> TelemetryState {
    match reads {
        MsrReads::Intel(r) => after_power(
            after_clock(s, r.aperf, r.mperf),
            intel_joules(r.power_unit),
            energy_word(r.energy),
            now,
        ),
        MsrReads::Amd(r) => after_power(
            after_clock(s, r.aperf, r.mperf),
            amd_joules(r.power_unit),
            energy_word(r.energy),
            now,
        ),
        MsrReads::Unavailable(_) => s,
    }
}

impl TelemetryState {
    /// The temperature correction is one that a part can have.
    pub open spec fn wf(self) -> bool {
        0 <= self.tctl_offset.eighths <= 216
    }

    /// The state before the first sample. `temperature_target` is the register that holds
    /// Tjmax, where it could be read. A ratio of counters only becomes a frequency by the
    /// nominal clock; parts that do not report one are looked up in `specs`.
    pub fn new(
        source: &MsrSource,
        topology: &CpuTopology,
        specs: &[CpuSpec],
        temperature_target: Option<u64>,
    ) -> (s: Self)
        ensures
            s == fresh_state(
                source.deep_view(),
                topology.deep_view(),
                specs.deep_view(),
                temperature_target,
            ),
            s.wf(),
    {
        let tjmax = match source {
            MsrSource::Intel => match temperature_target {
                Some(raw) => Some(decode_tjmax(raw)),
                None => None,
            },
            _ => None,
        };
        let base_clock_mhz = match topology.base_clock_mhz.get() {
            Some(mhz) => Some(*mhz),
            None => match topology.brand_string.get() {
                Some(brand) => base_clock_mhz_for(specs, brand.as_str()),
                None => None,
            },
        };
        let tctl_offset = match topology.brand_string.get() {
            Some(brand) => tctl_offset_celsius(brand.as_str()),
            None => Celsius { eighths: 0 },
        };
        TelemetryState {
            prev_aperf: None,
            prev_mperf: None,
            prev_energy_raw: None,
            prev_energy_at: None,
            tjmax,
            base_clock_mhz,
            tctl_offset,
        }
    }

    /// The clock over the window from the last sample to this one.
    pub fn effective_clock(&mut self, aperf: Option<u64>, mperf: Option<u64>) -> (r: Reading<Frequency>)
        ensures
            r.deep_view() == clock_reading(*old(self), aperf, mperf),
            *final(self) == after_clock(*old(self), aperf, mperf),
    {
        let (a, m) = match (aperf, mperf) {
            (Some(a), Some(m)) => (a, m),
            _ => {
                return Reading::unsupported();
            },
        };
        let result = match (self.prev_aperf, self.prev_mperf, self.base_clock_mhz) {
            (Some(pa), Some(pm), Some(base)) => Reading::value(
                effective_clock_mhz(a.wrapping_sub(pa), m.wrapping_sub(pm), base),
            ),
            (Some(_), Some(_), None) => Reading::failed(
                String::from_str(
                    "no rated base clock for this CPU, so the APERF/MPERF ratio cannot be converted to MHz",
                ),
            ),
            _ => Reading::failed(String::from_str("first sample of the run")),
        };
        self.prev_aperf = Some(a);
        self.prev_mperf = Some(m);
        result
    }

    /// The power over the window from the last sample to this one. `now` is the time at which
    /// the counter was read, in nanoseconds of a monotonic clock.
    pub fn package_power(
        &mut self,
        joule_exponent: Option<u8>,
        energy: Option<u32>,
        now: u64,
    ) -> (r: Reading<Power>)
        requires
            joule_exponent matches Some(e) ==> e < 32,
        ensures
            r.deep_view() == power_reading(*old(self), joule_exponent, energy, now),
            *final(self) == after_power(*old(self), joule_exponent, energy, now),
    {
        let (exponent, raw) = match (joule_exponent, energy) {
            (Some(e), Some(raw)) => (e, raw),
            _ => {
                return Reading::unsupported();
            },
        };
        let result = match (self.prev_energy_raw, self.prev_energy_at) {
            (Some(prev), Some(at)) => {
                if now > at {
                    let delta = raw.wrapping_sub(prev);
                    let d = divisor(exponent);
                    let nanos: u64 = now - at;
                    assert(0 < d * nanos <= 0x8000_0000 * 0xFFFF_FFFF_FFFF_FFFF) by (nonlinear_arith)
                        requires
                            0 < d <= 0x8000_0000,
                            0 < nanos <= 0xFFFF_FFFF_FFFF_FFFF,
                    ;
                    let micro = round_ratio(
                        delta as u128 * 1_000_000_000_000_000,
                        d as u128 * nanos as u128,
                    );
                    Reading::value(Power { microwatts: cap(micro) })
                } else {
                    Reading::failed(String::from_str("zero-duration sample interval"))
                }
            },
            _ => Reading::failed(String::from_str("first sample of the run")),
        };
        self.prev_energy_raw = Some(raw);
        self.prev_energy_at = Some(now);
        result
    }

    fn sample_intel(&mut self, r: &IntelReads, now: u64) -> (t: CpuTelemetryReadings)
        requires
            old(self).wf(),
        ensures
            t.deep_view() == intel_sample(*old(self), *r, now),
            *final(self) == state_after(*old(self), MsrReads::Intel(*r), now),
    {
        let effective_clock = self.effective_clock(r.aperf, r.mperf);
        let joules = match r.power_unit {
            Some(raw) => Some(decode_rapl_units(raw).joule_exponent),
            None => None,
        };
        let energy = match r.energy {
            Some(raw) => Some(energy_count(raw)),
            None => None,
        };
        let package_power = self.package_power(joules, energy, now);
        let limits = match (r.power_unit, r.power_limit) {
            (Some(unit), Some(limit)) => {
                Some(decode_power_limits(limit, &decode_rapl_units(unit)))
            },
            _ => None,
        };
        let thermal = match (self.tjmax, r.thermal_status) {
            (Some(tj), Some(raw)) => Some(decode_thermal_status(raw, tj)),
            _ => None,
        };
        CpuTelemetryReadings {
            effective_clock,
            package_power,
            configured_pl1: match limits {
                Some(l) => Reading::value(l.pl1),
                None => Reading::unsupported(),
            },
            configured_pl2: match limits {
                Some(l) => Reading::value(l.pl2),
                None => Reading::unsupported(),
            },
            package_temperature_c: match thermal {
                Some(s) => Reading::value(s.temperature_celsius),
                None => Reading::unsupported(),
            },
            thermal_throttling: match thermal {
                Some(s) => Reading::value(s.throttling_now),
                None => Reading::unsupported(),
            },
        }
    }

    fn sample_amd(&mut self, r: &AmdReads, now: u64) -> (t: CpuTelemetryReadings)
        requires
            old(self).wf(),
        ensures
            t.deep_view() == amd_sample(*old(self), *r, now),
            *final(self) == state_after(*old(self), MsrReads::Amd(*r), now),
    {
        let effective_clock = self.effective_clock(r.aperf, r.mperf);
        let joules = match r.power_unit {
            Some(raw) => Some(decode_power_units(raw).joule_exponent),
            None => None,
        };
        let energy = match r.energy {
            Some(raw) => Some(energy_count(raw)),
            None => None,
        };
        let package_power = self.package_power(joules, energy, now);
        let package_temperature_c = match &r.temperature {
            Ok(raw) => {
                assert(*raw >> 21u32 <= 2047) by (bit_vector);
                let t = zen_temperature_celsius(*raw, self.tctl_offset);
                Reading::value(t.round() as i16)
            },
            Err(e) => Reading::failed(e.describe()),
        };
        CpuTelemetryReadings {
            effective_clock,
            package_power,
            configured_pl1: Reading::unsupported(),
            configured_pl2: Reading::unsupported(),
            package_temperature_c,
            thermal_throttling: Reading::unsupported(),
        }
    }

    fn unavailable_sample(&self, reason: &Unavailable) -> (t: CpuTelemetryReadings)
        ensures
            t.deep_view() == sample_of(*self, MsrReads::Unavailable(*reason), 0),
    {
        CpuTelemetryReadings {
            effective_clock: Reading::missing(reason.clone()),
            package_power: Reading::missing(reason.clone()),
            configured_pl1: Reading::missing(reason.clone()),
            configured_pl2: Reading::missing(reason.clone()),
            package_temperature_c: Reading::missing(reason.clone()),
            thermal_throttling: Reading::missing(reason.clone()),
        }
    }

    /// The measurements that follow from what one sample read at the time `now`, in
    /// nanoseconds of a monotonic clock.
    pub fn sample(&mut self, reads: &MsrReads, now: u64) -> (t: CpuTelemetryReadings)
        requires
            old(self).wf(),
        ensures
            t.deep_view() == sample_of(*old(self), *reads, now),
            *final(self) == state_after(*old(self), *reads, now),
            final(self).wf(),
    {
        match reads {
            MsrReads::Intel(r) => self.sample_intel(r, now),
            MsrReads::Amd(r) => self.sample_amd(r, now),
            MsrReads::Unavailable(reason) => self.unavailable_sample(reason),
        }
    }
}

// ---------------------------------------------------------------------------
// Laws
// ---------------------------------------------------------------------------

/// Without a nominal clock no frequency is ever reported: a bare ratio must not surface as
/// if it were one.
pub proof fn no_nominal_clock_no_frequency(s: TelemetryState, aperf: Option<u64>, mperf: Option<u64>)
    requires
        s.base_clock_mhz is None,
    ensures
        clock_reading(s, aperf, mperf).get() is None,
        aperf is None || mperf is None ==> clock_reading(s, aperf, mperf).is_not_offered(),
        aperf is Some && mperf is Some ==> (clock_reading(s, aperf, mperf) matches ReadingView::Missing {
            reason,
            ..
        } && reason is QueryFailed),
{
}

/// The first sample only primes the deltas: a rate takes two.
pub proof fn a_rate_takes_two_samples(
    source: MsrSourceView,
    topology: CpuTopologyView,
    specs: Seq<CpuSpecView>,
    target: Option<u64>,
    reads: MsrReads,
    now: u64,
)
    ensures
        ({
            let first = sample_of(fresh_state(source, topology, specs, target), reads, now);
            first.effective_clock.get() is None && first.package_power.get() is None
        }),
{
}

/// The second of two samples with readable counters, on a part with a nominal clock, reports
/// the frequency over the window between them.
pub proof fn the_second_sample_measures_the_window(
    s: TelemetryState,
    a0: u64,
    m0: u64,
    da: u64,
    dm: u64,
    base: u32,
)
    requires
        s.base_clock_mhz == Some(base),
    ensures
        clock_reading(
            after_clock(s, Some(a0), Some(m0)),
            Some(a0.wrapping_add(da)),
            Some(m0.wrapping_add(dm)),
        ) == ReadingView::value(effective_clock(da, dm, base)),
{
}

/// Samples never change what is known of the part.
pub proof fn samples_keep_the_part(s: TelemetryState, reads: MsrReads, now: u64)
    ensures
        state_after(s, reads, now).tjmax == s.tjmax,
        state_after(s, reads, now).base_clock_mhz == s.base_clock_mhz,
        state_after(s, reads, now).tctl_offset == s.tctl_offset,
{
}

/// A machine without a telemetry driver still produces samples: every value is missing, and
/// for the reason that the source gives.
pub proof fn an_unavailable_source_explains_itself(s: TelemetryState, reason: Unavailable, now: u64)
    ensures
        ({
            let t = sample_of(s, MsrReads::Unavailable(reason), now);
            &&& t.effective_clock == ReadingView::<Frequency>::missing(reason.deep_view())
            &&& t.package_power == ReadingView::<Power>::missing(reason.deep_view())
            &&& t.configured_pl1 == ReadingView::<Power>::missing(reason.deep_view())
            &&& t.configured_pl2 == ReadingView::<Power>::missing(reason.deep_view())
            &&& t.package_temperature_c == ReadingView::<i16>::missing(reason.deep_view())
            &&& t.thermal_throttling == ReadingView::<bool>::missing(reason.deep_view())
        }),
        state_after(s, MsrReads::Unavailable(reason), now) == s,
{
}

// ---------------------------------------------------------------------------
// From the registers to the readings
// ---------------------------------------------------------------------------

/// Where the registers are read: without the library nowhere, for the reason that it did not load;
/// on a part of neither vendor nowhere either; and on the others through a session, unless that
/// failed.
pub proof fn the_source_goes_by_library_vendor_and_session(
    vendor: CpuVendor,
    library: Result<(), WinError>,
    session: Result<(), WinError>,
)
    ensures
        ({
            let s = source_of(vendor, library, session);
            &&& s == MsrSourceView::Intel <==> library is Ok && session is Ok && vendor
                == CpuVendor::Intel
            &&& s == MsrSourceView::Amd <==> library is Ok && session is Ok && vendor
                == CpuVendor::Amd
            &&& library matches Err(e) ==> s == MsrSourceView::Unavailable(
                UnavailableView::DriverMissing("PawnIOLib.dll: "@ + error_text(e.context@, e.code)),
            )
            &&& library is Ok && vendor == CpuVendor::Other ==> s == MsrSourceView::Unavailable(
                UnavailableView::NotSupportedByHardware,
            )
            &&& library is Ok && vendor != CpuVendor::Other ==> (session matches Err(e) ==> s
                == MsrSourceView::Unavailable(
                UnavailableView::QueryFailed(
                    "PawnIO session/module load failed: "@ + error_text(e.context@, e.code),
                ),
            ))
        }),
{
}

/// The clock that telemetry goes by is the part's own, and that of the table of rated parts only
/// where it has none. The highest temperature is known on Intel parts alone, and the bias goes by
/// the brand.
pub proof fn a_fresh_state_knows_the_part(
    source: MsrSourceView,
    topology: CpuTopologyView,
    specs: Seq<CpuSpecView>,
    target: Option<u64>,
)
    ensures
        ({
            let s = fresh_state(source, topology, specs, target);
            &&& topology.base_clock_mhz.get() is Some ==> s.base_clock_mhz
                == topology.base_clock_mhz.get()
            &&& topology.base_clock_mhz.get() is None ==> s.base_clock_mhz == (
            match topology.brand_string.get() {
                Some(brand) => base_clock_of(specs, lowercase(brand)),
                None => None,
            })
            &&& source == MsrSourceView::Intel ==> (target matches Some(raw) ==> s.tjmax == Some(
                tjmax(raw),
            ))
            &&& source != MsrSourceView::Intel || target is None ==> s.tjmax is None
            &&& topology.brand_string.get() matches Some(brand) ==> s.tctl_offset.eighths == 8
                * tctl_offset(lowercase(brand))
            &&& topology.brand_string.get() is None ==> s.tctl_offset.eighths == 0
            &&& s.prev_aperf is None && s.prev_mperf is None && s.prev_energy_raw is None
                && s.prev_energy_at is None
        }),
{
}

/// A frequency needs both counters now and before, and a base clock; it is then the effective
/// clock of the two counts between the samples. Both vendors' parts are measured alike.
pub proof fn a_frequency_is_measured_between_two_samples(
    s: TelemetryState,
    i: IntelReads,
    a: AmdReads,
    now: u64,
)
    requires
        i.aperf == a.aperf,
        i.mperf == a.mperf,
    ensures
        ({
            let shown = sample_of(s, MsrReads::Intel(i), now).effective_clock;
            &&& sample_of(s, MsrReads::Amd(a), now).effective_clock == shown
            &&& shown.get() is Some <==> i.aperf is Some && i.mperf is Some && s.prev_aperf is Some
                && s.prev_mperf is Some && s.base_clock_mhz is Some
            &&& shown.get() matches Some(f) ==> exists|da: u64, dm: u64|
                f == #[trigger] effective_clock(da, dm, s.base_clock_mhz->0)
                    && s.prev_aperf->0.wrapping_add(da) == i.aperf->0
                    && s.prev_mperf->0.wrapping_add(dm) == i.mperf->0
        }),
{
    if let Some(f) = sample_of(s, MsrReads::Intel(i), now).effective_clock.get() {
        let da = i.aperf->0.wrapping_sub(s.prev_aperf->0);
        let dm = i.mperf->0.wrapping_sub(s.prev_mperf->0);
        assert(f == effective_clock(da, dm, s.base_clock_mhz->0));
    }
}

/// A power is so much energy over so much time: no more than half a microwatt off, as far as the
/// field goes. A joule has `divisor` units of energy.
pub open spec fn is_average(p: Power, units: int, divisor: int, nanos: int) -> bool {
    let off = 2 * (p.microwatts * (divisor * nanos) - 1_000_000_000_000_000 * units);
    off <= divisor * nanos && (p.microwatts < u64::MAX ==> -(divisor * nanos) <= off)
}

proof fn average_is_near(delta: u32, joule_exponent: u8, nanos: nat)
    requires
        joule_exponent < 32,
        nanos > 0,
    ensures
        is_average(
            average_power(delta, joule_exponent, nanos),
            delta as int,
            unit_divisor(joule_exponent) as int,
            nanos as int,
        ),
{
    let d = unit_divisor(joule_exponent);
    assert(joule_exponent < 32 ==> 0 < (1u64 << joule_exponent) <= 0x8000_0000) by (bit_vector);
    assert(d * nanos > 0) by (nonlinear_arith)
        requires
            d > 0,
            nanos > 0,
    ;
    let work = (delta * 1_000_000_000_000_000) as nat;
    let whole = (d * nanos) as nat;
    nearest_is_near(work, whole);
    let n = nearest(work, whole);
    if n > u64::MAX {
        assert(u64::MAX * whole <= n * whole) by (nonlinear_arith)
            requires
                u64::MAX <= n,
                whole >= 0,
        ;
    }
}

/// A power needs the energy counter and its unit now, the counter before, and time between them;
/// it is then the energy over that time. The counter wraps at 32 bits, and its unit stands in bits
/// 8 to 12 of the unit register on both vendors' parts.
pub proof fn a_power_is_measured_between_two_samples(
    s: TelemetryState,
    i: IntelReads,
    a: AmdReads,
    now: u64,
)
    requires
        i.power_unit == a.power_unit,
        i.energy == a.energy,
    ensures
        ({
            let shown = sample_of(s, MsrReads::Intel(i), now).package_power;
            &&& sample_of(s, MsrReads::Amd(a), now).package_power == shown
            &&& shown.get() is Some <==> i.power_unit is Some && i.energy is Some
                && s.prev_energy_raw is Some && (s.prev_energy_at matches Some(at) && at < now)
            &&& shown.get() matches Some(p) ==> exists|delta: u32|
                #[trigger] is_average(
                    p,
                    delta as int,
                    unit_divisor((i.power_unit->0 as int / 256 % 32) as u8) as int,
                    now - s.prev_energy_at->0,
                ) && s.prev_energy_raw->0.wrapping_add(delta) == i.energy->0 as int % 0x1_0000_0000
        }),
{
    if let Some(unit) = i.power_unit {
        crate::pawnio::intel_msr::units_are_in_their_bits(unit);
        crate::pawnio::amd_msr::units_are_in_their_bits(unit);
    }
    if let Some(p) = sample_of(s, MsrReads::Intel(i), now).package_power.get() {
        let raw = i.energy->0;
        assert((raw & 0xFFFF_FFFF) as u32 == raw % 0x1_0000_0000) by (bit_vector);
        let delta = ((raw & 0xFFFF_FFFF) as u32).wrapping_sub(s.prev_energy_raw->0);
        let exponent = rapl_units(i.power_unit->0).joule_exponent;
        average_is_near(delta, exponent, (now - s.prev_energy_at->0) as nat);
        assert(exponent == (i.power_unit->0 as int / 256 % 32) as u8);
        assert(is_average(
            p,
            delta as int,
            unit_divisor((i.power_unit->0 as int / 256 % 32) as u8) as int,
            now - s.prev_energy_at->0,
        ));
        assert(s.prev_energy_raw->0.wrapping_add(delta) == i.energy->0 as int % 0x1_0000_0000);
    }
}

/// What else an Intel part shows: its power limits where both registers came back, and its
/// temperature and throttling where the status came back and the highest temperature is known.
pub proof fn an_intel_part_shows_limits_and_heat(s: TelemetryState, r: IntelReads, now: u64)
    ensures
        ({
            let t = sample_of(s, MsrReads::Intel(r), now);
            &&& match (r.power_unit, r.power_limit) {
                (Some(unit), Some(limit)) => {
                    let l = power_limits(limit, (unit as int % 16) as u8);
                    t.configured_pl1.get() == Some(l.pl1) && t.configured_pl2.get() == Some(l.pl2)
                },
                _ => t.configured_pl1.is_not_offered() && t.configured_pl2.is_not_offered(),
            }
            &&& match (s.tjmax, r.thermal_status) {
                (Some(tj), Some(raw)) => t.thermal_throttling.get() == Some(raw as int % 2 == 1)
                    && t.package_temperature_c.get() == Some((tj - raw as int / 65536 % 128) as i16),
                _ => t.thermal_throttling.is_not_offered() && t.package_temperature_c.is_not_offered(),
            }
        }),
{
    if let Some(unit) = r.power_unit {
        crate::pawnio::intel_msr::units_are_in_their_bits(unit);
    }
    if let (Some(tj), Some(raw)) = (s.tjmax, r.thermal_status) {
        crate::pawnio::intel_msr::thermal_figures_are_in_their_bits(raw, tj);
    }
}

/// What else an AMD part shows: the temperature of its register less the part's bias, to the
/// nearest degree, or the error that kept it from being read. It has no power limits and no
/// throttle bit.
pub proof fn an_amd_part_shows_its_corrected_temperature(
    s: TelemetryState,
    r: AmdReads,
    now: u64,
)
    requires
        s.wf(),
    ensures
        ({
            let t = sample_of(s, MsrReads::Amd(r), now);
            &&& match r.temperature {
                Ok(raw) => t.package_temperature_c.get() matches Some(c) && -4 <= 8 * c
                    - zen_eighths(raw, s.tctl_offset) <= 4,
                Err(e) => t.package_temperature_c matches ReadingView::Missing { reason, .. }
                    && reason == UnavailableView::QueryFailed(error_text(e.context@, e.code)),
            }
            &&& t.configured_pl1.is_not_offered() && t.configured_pl2.is_not_offered()
            &&& t.thermal_throttling.is_not_offered()
        }),
{
    if let Ok(raw) = r.temperature {
        assert(raw >> 21u32 <= 2047) by (bit_vector);
    }
}

/// What is remembered of a sample: both counters where both came back, and the energy and its time
/// where its unit came back too; otherwise what was remembered stays.
pub proof fn a_sample_is_remembered_whole(s: TelemetryState, r: IntelReads, now: u64)
    ensures
        ({
            let t = state_after(s, MsrReads::Intel(r), now);
            &&& if r.aperf is Some && r.mperf is Some {
                t.prev_aperf == r.aperf && t.prev_mperf == r.mperf
            } else {
                t.prev_aperf == s.prev_aperf && t.prev_mperf == s.prev_mperf
            }
            &&& match (r.power_unit, r.energy) {
                (Some(_), Some(raw)) => t.prev_energy_raw == Some(
                    (raw as int % 0x1_0000_0000) as u32,
                ) && t.prev_energy_at == Some(now),
                _ => t.prev_energy_raw == s.prev_energy_raw && t.prev_energy_at == s.prev_energy_at,
            }
        }),
        forall|a: AmdReads|
            #![trigger state_after(s, MsrReads::Amd(a), now)]
            a.aperf == r.aperf && a.mperf == r.mperf && a.power_unit == r.power_unit && a.energy
                == r.energy ==> state_after(s, MsrReads::Amd(a), now) == state_after(
                s,
                MsrReads::Intel(r),
                now,
            ),
{
    if let Some(raw) = r.energy {
        assert((raw & 0xFFFF_FFFF) as u32 == raw % 0x1_0000_0000) by (bit_vector);
    }
}

/// A rate that is missing says why. Registers that could not be read offer none; with them, the
/// first sample has nothing to be measured against, a frequency also needs a base clock, and a
/// power needs time to pass.
pub proof fn a_missing_rate_says_why(s: TelemetryState, r: IntelReads, now: u64)
    ensures
        ({
            let t = sample_of(s, MsrReads::Intel(r), now);
            let counters = r.aperf is Some && r.mperf is Some;
            let energy = r.power_unit is Some && r.energy is Some;
            let first = UnavailableView::QueryFailed("first sample of the run"@);
            &&& !counters ==> t.effective_clock.is_not_offered()
            &&& counters && (s.prev_aperf is None || s.prev_mperf is None)
                ==> t.effective_clock.is_without(first)
            &&& counters && s.prev_aperf is Some && s.prev_mperf is Some && s.base_clock_mhz is None
                ==> (t.effective_clock matches ReadingView::Missing { reason, .. }
                && reason is QueryFailed && reason != first)
            &&& !energy ==> t.package_power.is_not_offered()
            &&& energy && (s.prev_energy_raw is None || s.prev_energy_at is None)
                ==> t.package_power.is_without(first)
            &&& energy && s.prev_energy_raw is Some && (s.prev_energy_at matches Some(at) && now
                <= at) ==> (t.package_power matches ReadingView::Missing { reason, .. }
                && reason is QueryFailed && reason != first)
        }),
{
    reveal_strlit("first sample of the run");
    reveal_strlit("zero-duration sample interval");
    reveal_strlit(
        "no rated base clock for this CPU, so the APERF/MPERF ratio cannot be converted to MHz",
    );
    assert("first sample of the run"@[0] == 'f');
    assert("zero-duration sample interval"@[0] == 'z');
    assert("no rated base clock for this CPU, so the APERF/MPERF ratio cannot be converted to MHz"@[0]
        == 'n');
}

} // verus!
