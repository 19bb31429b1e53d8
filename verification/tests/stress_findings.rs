use pc_checker::analysis::stress_findings::{
    base_clock_mhz_for, evaluate_cpu, evaluate_gpu, evaluate_rated_cpu, find_normalized, find_spec,
    CpuSpec,
};
use pc_checker::measure::Frequency;
use pc_checker::model::{Confidence, Reading, Severity, Unavailable};
use pc_checker::probes::cpu::{CpuTopology, CpuVendor};
use pc_checker::telemetry::types::{
    CpuSample, CpuStressResult, GpuPhase, GpuSample, GpuStressResult, Phase,
};

fn dataset() -> Vec<CpuSpec> {
    vec![CpuSpec {
        match_key: "ryzen 5 7500f".to_string(),
        display_name: "AMD Ryzen 5 7500F".to_string(),
        base_clock_mhz: 3700,
        boost_clock_mhz: 5000,
        tdp_watts: 65,
    }]
}

fn topology(brand: &str) -> CpuTopology {
    CpuTopology {
        vendor: CpuVendor::Amd,
        brand_string: Reading::value(brand.to_string()),
        physical_cores: Reading::value(6),
        logical_processors: 6,
        base_clock_mhz: Reading::unsupported(),
    }
}

fn sample_with_clock(mhz: f64) -> CpuSample {
    CpuSample {
        elapsed_ms: 0,
        phase: Phase::AllCoreSustained,
        effective_clock: Reading::value(Frequency { hertz: (mhz * 1e6) as u64 }),
        package_power: Reading::unsupported(),
        configured_pl1: Reading::unsupported(),
        configured_pl2: Reading::unsupported(),
        package_temperature_c: Reading::unsupported(),
        thermal_throttling: Reading::unsupported(),
        self_check_ok: Some(true),
        total_iterations: 1_000_000,
    }
}

fn result_with_clocks(mhz_values: &[f64]) -> CpuStressResult {
    CpuStressResult {
        samples: mhz_values.iter().map(|&m| sample_with_clock(m)).collect(),
        aborted: false,
        abort_reason: None,
        self_check_failed: false,
    }
}

#[test]
fn spec_dataset_parses_and_matches_the_dev_machine_cpu() {
    let specs = dataset();
    let spec = find_spec(&specs, "amd ryzen 5 7500f 6-core processor");
    let spec = spec.expect("Ryzen 5 7500F must be in the seed dataset");
    assert_eq!(spec.base_clock_mhz, 3700);
    assert_eq!(spec.boost_clock_mhz, 5000);
}

#[test]
fn unknown_cpu_does_not_match() {
    assert!(find_spec(&dataset(), "some future cpu nobody has heard of yet").is_none());
}

#[test]
fn brands_match_whatever_their_case() {
    let specs = dataset();
    assert_eq!(base_clock_mhz_for(&specs, "AMD Ryzen 5 7500F 6-Core Processor"), Some(3700));
    assert_eq!(base_clock_mhz_for(&specs, "AMD Ryzen 5 7600"), None);
    assert!(find_normalized(&specs, "AMD Ryzen 5 7500F").is_none());
    assert!(find_normalized(&specs, "amd ryzen 5 7500f").is_some());
}

#[test]
fn below_rated_base_clock_is_flagged_as_a_problem() {
    let result = result_with_clocks(&[2900.0, 2950.0, 2880.0]);
    let topo = topology("AMD Ryzen 5 7500F 6-Core Processor");
    let findings = evaluate_cpu(&result, &topo, &dataset());
    let f = findings
        .iter()
        .find(|f| f.id == "cpu.sustained_below_base")
        .expect("expected a clock-floor finding");
    assert_eq!(f.severity, Severity::Problem);
    assert_eq!(f.confidence, Confidence::SpecGrounded);
    assert_eq!(f.observed, "averaged 2910 MHz across the sustained all-core phase");
    assert_eq!(f.basis, "AMD Ryzen 5 7500F's manufacturer-rated base clock (3700 MHz)");
    assert!(f.recommendation.starts_with("21% below its own rated floor"));
}

#[test]
fn holding_base_clock_is_reported_ok_not_omitted() {
    let result = result_with_clocks(&[3750.0, 3800.0, 3720.0]);
    let topo = topology("AMD Ryzen 5 7500F 6-Core Processor");
    let findings = evaluate_cpu(&result, &topo, &dataset());
    let f = findings.iter().find(|f| f.id == "cpu.sustained_below_base").unwrap();
    assert_eq!(f.severity, Severity::Fine);
}

#[test]
fn small_deficit_within_tolerance_is_not_flagged_as_a_problem() {
    let result = result_with_clocks(&[3600.0, 3610.0, 3590.0]);
    let topo = topology("AMD Ryzen 5 7500F 6-Core Processor");
    let findings = evaluate_cpu(&result, &topo, &dataset());
    let f = findings.iter().find(|f| f.id == "cpu.sustained_below_base").unwrap();
    assert_eq!(f.severity, Severity::Fine);
}

#[test]
fn unknown_cpu_without_any_base_clock_produces_no_clock_finding() {
    let result = result_with_clocks(&[2000.0]);
    let topo = topology("Some Unreleased Future CPU");
    let findings = evaluate_cpu(&result, &topo, &dataset());
    assert!(findings.iter().all(|f| f.id != "cpu.sustained_below_base"));
}

#[test]
fn unknown_cpu_falls_back_to_cpuid_reported_base_clock_as_heuristic() {
    let mut topo = topology("Some Unreleased Future CPU");
    topo.base_clock_mhz = Reading::value(3000);
    let result = result_with_clocks(&[2000.0, 2050.0]);
    let findings = evaluate_cpu(&result, &topo, &dataset());
    let f = findings.iter().find(|f| f.id == "cpu.sustained_below_base").unwrap();
    assert_eq!(f.confidence, Confidence::Heuristic);
    assert_eq!(f.severity, Severity::Problem);
    assert!(f.basis.contains("reported base clock (3000 MHz)"));
}

#[test]
fn missing_telemetry_produces_no_clock_finding_rather_than_a_false_defect() {
    let mut result = result_with_clocks(&[]);
    let mut sample = sample_with_clock(0.0);
    sample.effective_clock =
        Reading::missing(Unavailable::DriverMissing("PawnIO not installed".into()));
    sample.total_iterations = 100;
    result.samples.push(sample);
    let topo = topology("AMD Ryzen 5 7500F 6-Core Processor");
    let findings = evaluate_cpu(&result, &topo, &dataset());
    assert!(findings.iter().all(|f| f.id != "cpu.sustained_below_base"));
}

#[test]
fn self_check_failure_is_always_critical() {
    let mut result = result_with_clocks(&[3750.0]);
    result.self_check_failed = true;
    let topo = topology("AMD Ryzen 5 7500F 6-Core Processor");
    let findings = evaluate_cpu(&result, &topo, &dataset());
    let f = findings.iter().find(|f| f.id == "cpu.self_check_failed").unwrap();
    assert_eq!(f.severity, Severity::Critical);
}

#[test]
fn sustained_thermal_throttling_is_flagged_when_persistent() {
    let mut result = result_with_clocks(&[3750.0; 10]);
    for s in result.samples.iter_mut().take(5) {
        s.thermal_throttling = Reading::value(true);
    }
    for s in result.samples.iter_mut().skip(5) {
        s.thermal_throttling = Reading::value(false);
    }
    let topo = topology("AMD Ryzen 5 7500F 6-Core Processor");
    let findings = evaluate_cpu(&result, &topo, &dataset());
    let f = findings.iter().find(|f| f.id == "cpu.thermal_throttling_observed");
    assert!(f.is_some());
    assert_eq!(
        f.unwrap().observed,
        "thermal-throttle bit set on 50% of sustained-phase samples"
    );
}

#[test]
fn brief_isolated_throttle_ticks_are_not_flagged() {
    let mut result = result_with_clocks(&[3750.0; 20]);
    result.samples[0].thermal_throttling = Reading::value(true);
    for s in result.samples.iter_mut().skip(1) {
        s.thermal_throttling = Reading::value(false);
    }
    let topo = topology("AMD Ryzen 5 7500F 6-Core Processor");
    let findings = evaluate_cpu(&result, &topo, &dataset());
    assert!(findings.iter().all(|f| f.id != "cpu.thermal_throttling_observed"));
}

#[test]
fn a_tenth_of_the_samples_counts_as_throttling() {
    let mut result = result_with_clocks(&[3750.0; 10]);
    for s in result.samples.iter_mut() {
        s.thermal_throttling = Reading::value(false);
    }
    result.samples[3].thermal_throttling = Reading::value(true);
    let findings = evaluate_rated_cpu(&result, &topology("x"), None);
    assert!(findings.iter().any(|f| f.id == "cpu.thermal_throttling_observed"));
}

#[test]
fn samples_of_other_phases_do_not_count() {
    let mut result = result_with_clocks(&[100.0]);
    result.samples[0].phase = Phase::IdleBaseline;
    let specs = dataset();
    let findings = evaluate_rated_cpu(&result, &topology("x"), specs.first());
    assert!(findings.is_empty());
}

#[test]
fn stress_findings_findings_are_sorted_worst_first() {
    let mut result = result_with_clocks(&[2000.0]);
    result.self_check_failed = true;
    let topo = topology("AMD Ryzen 5 7500F 6-Core Processor");
    let findings = evaluate_cpu(&result, &topo, &dataset());
    assert_eq!(findings[0].severity, Severity::Critical);
}

fn flag(known: Option<bool>, value: bool) -> Reading<bool> {
    match known {
        Some(_) => Reading::value(value),
        None => Reading::unsupported(),
    }
}

fn gpu_sample(hw_thermal: Option<bool>) -> GpuSample {
    GpuSample {
        elapsed_ms: 0,
        phase: GpuPhase::ComputeSustained,
        graphics_clock_mhz: Reading::unsupported(),
        power: Reading::unsupported(),
        edge_temperature_c: Reading::unsupported(),
        hotspot_temperature_c: Reading::unsupported(),
        fan_rpm: Reading::unsupported(),
        fan_percent: Reading::unsupported(),
        sw_thermal_slowdown: flag(hw_thermal, false),
        hw_thermal_slowdown: flag(hw_thermal, hw_thermal == Some(true)),
        sw_power_cap: flag(hw_thermal, false),
        hw_power_brake: flag(hw_thermal, false),
        self_check_ok: Some(true),
        dispatches_completed: 10,
    }
}

fn gpu_result(samples: Vec<GpuSample>, self_check_failed: bool) -> GpuStressResult {
    GpuStressResult { samples, aborted: false, abort_reason: None, self_check_failed }
}

#[test]
fn gpu_self_check_failure_is_critical() {
    let result = gpu_result(vec![gpu_sample(None)], true);
    let findings = evaluate_gpu(&result);
    assert!(findings
        .iter()
        .any(|f| f.id == "gpu.self_check_failed" && f.severity == Severity::Critical));
}

#[test]
fn gpu_persistent_thermal_throttle_is_flagged() {
    let samples = (0..10).map(|i| gpu_sample(Some(i < 5))).collect();
    let findings = evaluate_gpu(&gpu_result(samples, false));
    assert!(findings.iter().any(|f| f.id == "gpu.throttling_observed"));
    assert_eq!(findings[0].title, "GPU reported thermal limiting during the sustained phase");
}

#[test]
fn gpu_power_capping_is_told_from_heat() {
    let mut s = gpu_sample(Some(false));
    s.sw_power_cap = Reading::value(true);
    let findings = evaluate_gpu(&gpu_result(vec![s], false));
    assert_eq!(findings[0].title, "GPU reported power-cap limiting during the sustained phase");
    assert_eq!(
        findings[0].observed,
        "a throttle-reason bit was set on 100% of sustained-phase samples"
    );
}

#[test]
fn gpu_no_telemetry_produces_no_throttle_finding() {
    let samples = vec![gpu_sample(None); 5];
    let findings = evaluate_gpu(&gpu_result(samples, false));
    assert!(findings.iter().all(|f| f.id != "gpu.throttling_observed"));
}

#[test]
fn gpu_brief_throttle_tick_is_not_flagged() {
    let samples = (0..20).map(|i| gpu_sample(Some(i == 0))).collect();
    let findings = evaluate_gpu(&gpu_result(samples, false));
    assert!(findings.iter().all(|f| f.id != "gpu.throttling_observed"));
}
