use pc_checker::clock::Timestamp;
use pc_checker::model::{Reading, Severity, Unavailable};
use pc_checker::probes::battery::{probe_one, BatteryReplies, BatteryReport};
use pc_checker::probes::battery_reading;
use pc_checker::probes::cpu::{CpuTopology, CpuVendor};
use pc_checker::probes::crashes;
use pc_checker::probes::firmware::{probe, probe_persistence, FormFactor};
use pc_checker::scan::{
    pack_reading, scan_battery, scan_cpu, scan_cpu_stress, scan_firmware, scan_gpu,
    scan_gpu_stress, scan_memory, scan_stability, scan_storage,
};
use pc_checker::session::CpuSessions;
use pc_checker::telemetry::types::{CpuStressResult, GpuStressResult};
use pc_checker::win::WinError;

fn pack() -> BatteryReport {
    probe_one(&BatteryReplies {
        information: None,
        status: None,
        device_name: None,
        manufacturer: None,
        serial_number: None,
        unique_id: None,
        manufacture_date: None,
        temperature: None,
        estimated_time: None,
    })
}

fn reason_of<T>(r: &Reading<T>) -> Unavailable {
    match r {
        Reading::Missing { reason, .. } => reason.clone(),
        Reading::Value { .. } => panic!("expected missing"),
    }
}

#[test]
fn a_desktop_without_a_battery_is_expected() {
    let none = battery_reading(Ok(Vec::new()), FormFactor::Desktop);
    assert_eq!(reason_of(&none), Unavailable::NotApplicable);
    let gone = battery_reading(Ok(Vec::new()), FormFactor::Laptop);
    assert_eq!(
        reason_of(&gone),
        Unavailable::QueryFailed(
            "portable chassis reports no battery — pack removed or failed".to_string()
        )
    );
    let tablet = battery_reading(Ok(Vec::new()), FormFactor::Tablet);
    assert!(matches!(reason_of(&tablet), Unavailable::QueryFailed(_)));
    let failed = battery_reading(Err(WinError::new("SetupDi", 13)), FormFactor::Laptop);
    assert_eq!(
        reason_of(&failed),
        Unavailable::QueryFailed("SetupDi failed (os error 13)".to_string())
    );
    assert!(battery_reading(Ok(vec![pack()]), FormFactor::Desktop).is_ok());
}

#[test]
fn a_battery_scan_asks_for_history_only_with_a_pack() {
    let s = scan_battery(
        pack_reading(Ok(Vec::new())),
        Err("not asked for".to_string()),
        "now".to_string(),
    );
    assert_eq!(reason_of(&s.data.packs), Unavailable::NotApplicable);
    assert_eq!(reason_of(&s.data.history), Unavailable::NotApplicable);
    assert!(s.findings.is_empty());
    assert_eq!(s.scanned_at, "now");

    let s = scan_battery(
        pack_reading(Ok(vec![pack()])),
        Err("powercfg failed".to_string()),
        "now".to_string(),
    );
    assert!(s.data.packs.is_ok());
    assert_eq!(
        reason_of(&s.data.history),
        Unavailable::QueryFailed("powercfg failed".to_string())
    );
    assert!(!pack_reading(Err(WinError::new("x", 1))).is_ok());
}

#[test]
fn component_scans_carry_data_findings_and_time() {
    let fw = probe(&Err(WinError::new("x", 1)), probe_persistence(b"WPBT", false, false, false));
    let s = scan_firmware(fw, "t".to_string());
    assert_eq!(s.findings[0].id, "firmware.wpbt");
    assert_eq!(s.scanned_at, "t");

    assert!(scan_storage(Vec::new(), "t".to_string()).findings.is_empty());

    let m = scan_memory(&Err(WinError::new("x", 1)), "t".to_string());
    assert_eq!(m.data.total_slots, 0);

    let g = scan_gpu(Err(WinError::new("CreateDXGIFactory1", 2)), "t".to_string());
    assert!(!g.data.is_ok());
    assert!(g.findings.is_empty());

    let h = crashes::probe(
        &[],
        Timestamp { seconds: 0, nanos: 0 },
        false,
        Reading::unsupported(),
        Reading::unsupported(),
    );
    assert!(scan_stability(h, "t".to_string()).findings.is_empty());
}

fn topology() -> CpuTopology {
    CpuTopology {
        vendor: CpuVendor::Other,
        brand_string: Reading::unsupported(),
        physical_cores: Reading::unsupported(),
        logical_processors: 1,
        base_clock_mhz: Reading::unsupported(),
    }
}

#[test]
fn stress_results_are_judged_at_their_end() {
    assert!(scan_cpu(topology(), "t".to_string()).findings.is_empty());
    let result = CpuStressResult {
        samples: Vec::new(),
        aborted: false,
        abort_reason: None,
        self_check_failed: true,
    };
    let s = scan_cpu_stress(result, &topology(), &[], "t".to_string());
    assert_eq!(s.findings[0].severity, Severity::Critical);
    let result = GpuStressResult {
        samples: Vec::new(),
        aborted: true,
        abort_reason: Some("cancelled by user".to_string()),
        self_check_failed: false,
    };
    let s = scan_gpu_stress(result, "t".to_string());
    assert!(s.findings.is_empty());
    assert!(s.data.aborted);
}

#[test]
fn stress_and_monitor_exclude_each_other() {
    let mut s = CpuSessions::default();
    assert_eq!(s.start_monitor(), Ok(false));
    assert_eq!(s.start_monitor(), Ok(true));
    assert!(s.start_stress());
    assert!(!s.monitor_running);
    assert_eq!(s.start_monitor(), Err("a CPU stress test is already running".to_string()));
    s.stress_finished();
    assert_eq!(s.start_monitor(), Ok(false));
    assert!(s.stop_monitor());
    assert!(!s.stop_monitor());
}
