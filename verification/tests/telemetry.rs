use pc_checker::analysis::stress_findings::CpuSpec;
use pc_checker::model::{Reading, Unavailable};
use pc_checker::probes::cpu::{CpuTopology, CpuVendor};
use pc_checker::telemetry::cpu_source::{
    AmdReads, IntelReads, MsrReads, MsrSource, TelemetryState,
};
use pc_checker::telemetry::live_monitor::{live_sample, tick_rest, SAMPLE_INTERVAL_NANOS};
use pc_checker::telemetry::types::{GpuPhase, Phase};
use pc_checker::win::WinError;

fn dataset() -> Vec<CpuSpec> {
    vec![CpuSpec {
        match_key: "ryzen 5 7500f".to_string(),
        display_name: "AMD Ryzen 5 7500F".to_string(),
        base_clock_mhz: 3700,
        boost_clock_mhz: 5000,
        tdp_watts: 65,
    }]
}

fn topology(brand: Option<&str>, base_clock: Option<u32>) -> CpuTopology {
    CpuTopology {
        vendor: CpuVendor::Amd,
        brand_string: match brand {
            Some(b) => Reading::value(b.to_string()),
            None => Reading::unsupported(),
        },
        physical_cores: Reading::value(6),
        logical_processors: 6,
        base_clock_mhz: match base_clock {
            Some(c) => Reading::value(c),
            None => Reading::unsupported(),
        },
    }
}

fn unavailable_source() -> MsrSource {
    MsrSource::Unavailable(Unavailable::NotApplicable)
}

fn state(brand: Option<&str>, base_clock: Option<u32>) -> TelemetryState {
    TelemetryState::new(&unavailable_source(), &topology(brand, base_clock), &dataset(), None)
}

#[test]
fn cpuid_base_clock_wins_when_present() {
    let state = state(Some("whatever"), Some(2500));
    assert_eq!(state.base_clock_mhz, Some(2500));
}

#[test]
fn amd_base_clock_falls_back_to_the_spec_dataset() {
    let state = state(Some("AMD Ryzen 5 7500F 6-Core Processor"), None);
    assert_eq!(state.base_clock_mhz, Some(3700));
}

#[test]
fn an_unknown_part_has_no_base_clock_rather_than_a_placeholder() {
    let state = state(Some("Some Unreleased CPU 9999X"), None);
    assert_eq!(state.base_clock_mhz, None);
}

#[test]
fn without_a_base_clock_the_clock_reading_explains_itself_instead_of_reporting_a_ratio() {
    let mut state = state(None, None);

    let first = state.effective_clock(Some(1_000), Some(1_000));
    assert!(!first.is_ok());

    let second = state.effective_clock(Some(2_280), Some(2_000));
    match second {
        Reading::Missing { note, .. } => {
            assert!(note.contains("base clock"), "note should name what is missing: {note}");
        }
        Reading::Value { value, .. } => panic!("expected no reading, got {value:?}"),
    }
}

#[test]
fn with_a_base_clock_the_ratio_becomes_real_megahertz() {
    let mut state = state(Some("ryzen 5 7500f"), None);

    let _ = state.effective_clock(Some(1_000), Some(1_000));
    let reading = state.effective_clock(Some(2_280), Some(2_000));
    let mhz = reading.get().expect("expected a real clock reading").hertz as f64 / 1e6;
    assert!(
        (4700.0..4800.0).contains(&mhz),
        "expected ~4736 MHz from a 1.28x ratio on a 3700 MHz base, got {mhz}"
    );
    assert_eq!(reading.get().unwrap().hertz, 4_736_000_000);
}

#[test]
fn counters_that_wrap_still_count() {
    let mut state = state(Some("x"), Some(1000));
    let _ = state.effective_clock(Some(u64::MAX - 499), Some(u64::MAX - 999));
    let r = state.effective_clock(Some(500), Some(1000));
    assert_eq!(r.get().unwrap().hertz, 500_000_000);
}

#[test]
fn power_is_the_energy_over_the_interval() {
    let mut state = state(None, None);
    let first = state.package_power(Some(14), Some(0xFFFF_F000), 0);
    assert!(!first.is_ok());
    // 16384 * 20 units of 1/16384 joule, over half a second: 40 watts.
    let raw: u32 = 0xFFFF_F000u32.wrapping_add(16384 * 20);
    let second = state.package_power(Some(14), Some(raw), 500_000_000);
    assert_eq!(second.get().unwrap().microwatts, 40_000_000);
    match state.package_power(Some(14), Some(raw), 500_000_000) {
        Reading::Missing { note, .. } => {
            assert_eq!(note, "query failed: zero-duration sample interval")
        }
        Reading::Value { .. } => panic!("no time has passed"),
    }
    assert!(!state.package_power(None, Some(raw), 600_000_000).is_ok());
}

#[test]
fn sources_say_why_they_are_unavailable() {
    assert_eq!(MsrSource::open(CpuVendor::Intel, Ok(()), Ok(())), MsrSource::Intel);
    assert_eq!(MsrSource::open(CpuVendor::Amd, Ok(()), Ok(())), MsrSource::Amd);
    assert_eq!(
        MsrSource::open(CpuVendor::Other, Ok(()), Ok(())),
        MsrSource::Unavailable(Unavailable::NotSupportedByHardware)
    );
    assert_eq!(
        MsrSource::open(CpuVendor::Amd, Err(WinError::new("LoadLibraryW", 126)), Ok(())),
        MsrSource::Unavailable(Unavailable::DriverMissing(
            "PawnIOLib.dll: LoadLibraryW failed (os error 126)".to_string()
        ))
    );
    assert_eq!(
        MsrSource::open(CpuVendor::Amd, Ok(()), Err(WinError::new("pawnio_open", 5))),
        MsrSource::Unavailable(Unavailable::QueryFailed(
            "PawnIO session/module load failed: pawnio_open failed (os error 5)".to_string()
        ))
    );
}

#[test]
fn an_intel_sample_reads_limits_and_temperature() {
    let mut state = TelemetryState::new(
        &MsrSource::Intel,
        &topology(None, Some(2500)),
        &dataset(),
        Some(100 << 16),
    );
    assert_eq!(state.tjmax, Some(100));
    let reads = MsrReads::Intel(IntelReads {
        aperf: Some(10),
        mperf: Some(10),
        power_unit: Some(3 | (14 << 8)),
        energy: Some(5),
        power_limit: Some(200 | (400 << 32)),
        thermal_status: Some(1 | (20 << 16)),
    });
    let t = state.sample(&reads, 1);
    assert!(!t.effective_clock.is_ok());
    assert_eq!(t.configured_pl1.get().unwrap().microwatts, 25_000_000);
    assert_eq!(t.configured_pl2.get().unwrap().microwatts, 50_000_000);
    assert_eq!(t.package_temperature_c.get(), Some(&80));
    assert_eq!(t.thermal_throttling.get(), Some(&true));
    assert_eq!(state.prev_aperf, Some(10));
    assert_eq!(state.prev_energy_at, Some(1));
}

#[test]
fn an_amd_sample_corrects_its_temperature() {
    let mut state = TelemetryState::new(
        &MsrSource::Amd,
        &topology(Some("AMD Ryzen 7 1800X Eight-Core Processor"), None),
        &dataset(),
        Some(100 << 16),
    );
    assert_eq!(state.tjmax, None);
    let reads = |temperature| {
        MsrReads::Amd(AmdReads {
            aperf: None,
            mperf: None,
            power_unit: None,
            energy: None,
            temperature,
        })
    };
    let t = state.sample(&reads(Ok((65 * 8) << 21)), 0);
    assert_eq!(t.package_temperature_c.get(), Some(&45));
    assert!(!t.configured_pl1.is_ok());
    assert!(!t.thermal_throttling.is_ok());
    let t = state.sample(&reads(Err(WinError::new("PCI bus busy", 258))), 0);
    match t.package_temperature_c {
        Reading::Missing { note, .. } => {
            assert_eq!(note, "query failed: PCI bus busy failed (os error 258)")
        }
        Reading::Value { .. } => panic!("expected missing"),
    }
}

/// Without a driver the monitor still ticks, with every value missing, until it is cancelled.
#[test]
fn monitor_produces_samples_and_stops_on_cancel() {
    let mut state = state(None, None);
    let mut samples = Vec::new();
    let mut cancel = false;
    let mut now: u64 = 0;
    while !cancel {
        let reason = Unavailable::DriverMissing("PawnIOLib.dll".to_string());
        let readings = state.sample(&MsrReads::Unavailable(reason), now);
        samples.push(live_sample(now / 1_000_000, readings));
        now += tick_rest(20_000_000, 1_000_000);
        cancel = now >= 120_000_000;
    }
    assert!(!samples.is_empty(), "monitor produced no samples before cancellation");
    assert!(!samples[0].effective_clock.is_ok());
}

#[test]
fn an_unavailable_source_still_produces_samples() {
    let mut state = state(None, Some(2500));
    let before = state;
    let reason = Unavailable::DriverMissing("PawnIOLib.dll".to_string());
    let t = state.sample(&MsrReads::Unavailable(reason), 5);
    let s = live_sample(12, t);
    assert_eq!(s.elapsed_ms, 12);
    assert!(!s.effective_clock.is_ok());
    assert!(!s.package_power.is_ok());
    assert!(!s.package_temperature_c.is_ok());
    assert!(!s.thermal_throttling.is_ok());
    assert_eq!(state, before);
}

#[test]
fn ticks_wait_for_the_rest_of_their_interval() {
    assert_eq!(tick_rest(SAMPLE_INTERVAL_NANOS, 400_000_000), 600_000_000);
    assert_eq!(tick_rest(SAMPLE_INTERVAL_NANOS, SAMPLE_INTERVAL_NANOS), 0);
    assert_eq!(tick_rest(SAMPLE_INTERVAL_NANOS, 2 * SAMPLE_INTERVAL_NANOS), 0);
}

#[test]
fn phases_have_labels() {
    assert_eq!(Phase::IdleBaseline.label(), "Idle baseline");
    assert_eq!(Phase::SingleThreadBoost.label(), "Single-thread boost");
    assert_eq!(Phase::AllCoreSustained.label(), "All-core sustained");
    assert_eq!(Phase::Cooldown.label(), "Cooldown");
    assert_eq!(GpuPhase::IdleBaseline.label(), "Idle baseline");
    assert_eq!(GpuPhase::ComputeSustained.label(), "Compute sustained");
    assert_eq!(GpuPhase::Cooldown.label(), "Cooldown");
}
