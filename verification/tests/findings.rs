use pc_checker::analysis::evaluate;
use pc_checker::analysis::findings::{battery, firmware, gpu, memory, stability, storage};
use pc_checker::measure::Share;
use pc_checker::model::{Finding, Reading, Severity};
use pc_checker::probes::ata_smart::AtaHealth;
use pc_checker::probes::battery::{probe_one, BatteryReplies, BatteryReport};
use pc_checker::probes::battery_history::BatteryHistory;
use pc_checker::probes::cpu::CpuFacts;
use pc_checker::probes::crashes::{CrashEvent, CrashHistory};
use pc_checker::probes::firmware::{probe_persistence, FirmwarePersistence};
use pc_checker::probes::gpu::GpuReport;
use pc_checker::probes::memory::{ChannelConfig, MemoryReport};
use pc_checker::probes::storage::{parse_nvme_health, DriveHealth, DriveReport, NvmeHealth};
use pc_checker::probes::{collect, survey, Inventory, MachineFacts};
use pc_checker::win::WinError;

fn ata(pending: Option<u64>, reallocated: Option<u64>, hours: Option<u64>) -> AtaHealth {
    AtaHealth {
        power_on_hours: hours.into(),
        power_cycles: Reading::unsupported(),
        reallocated_sectors: reallocated.into(),
        pending_sectors: pending.into(),
        uncorrectable_sectors: Reading::unsupported(),
        temperature_c: Reading::unsupported(),
        life_remaining_percent: Reading::unsupported(),
        bytes_written: Reading::unsupported(),
        attributes: Vec::new(),
    }
}

fn drive(health: AtaHealth) -> DriveReport {
    drive_with(DriveHealth::Ata(health))
}

fn drive_with(health: DriveHealth) -> DriveReport {
    DriveReport {
        index: 0,
        model: Reading::value("Test Drive".into()),
        serial: Reading::unsupported(),
        firmware: Reading::unsupported(),
        bus_type: "SATA".into(),
        removable: false,
        health: Reading::value(health),
    }
}

fn nvme() -> NvmeHealth {
    parse_nvme_health(&[0u8; 512])
}

fn find<'a>(f: &'a [Finding], id: &str) -> &'a Finding {
    f.iter().find(|f| f.id == id).expect("finding")
}

#[test]
fn pending_sectors_are_a_problem() {
    let f = storage(&[drive(ata(Some(3), None, None))]);
    assert!(f.iter().any(|f| f.severity == Severity::Problem));
}

#[test]
fn a_clean_drive_raises_no_defect() {
    let f = storage(&[drive(ata(Some(0), Some(0), None))]);
    assert!(
        f.iter().all(|f| f.severity == Severity::Fine),
        "clean drive should not produce defects: {f:?}"
    );
}

#[test]
fn old_drives_are_flagged_as_context_not_failure() {
    let f = storage(&[drive(ata(None, None, Some(82_093)))]);
    let age = f.iter().find(|f| f.id == "storage.age.0").expect("age finding");
    assert_eq!(age.severity, Severity::Watch);
    assert!(age.observed.contains("9.4"), "got {}", age.observed);
}

#[test]
fn a_young_drive_is_not_flagged() {
    let f = storage(&[drive(ata(None, None, Some(1_200)))]);
    let age = f.iter().find(|f| f.id == "storage.age.0").expect("age finding");
    assert_eq!(age.severity, Severity::Fine);
}

#[test]
fn zero_power_on_hours_produces_no_age_finding() {
    let f = storage(&[drive(ata(None, None, Some(0)))]);
    assert!(f.iter().all(|f| f.id != "storage.age.0"));
}

#[test]
fn components_evaluate_independently_of_each_other() {
    let f = storage(&[drive(ata(Some(1), None, Some(100)))]);
    assert!(!f.is_empty());
}

#[test]
fn five_years_is_where_age_becomes_worth_watching() {
    let young = storage(&[drive(ata(None, None, Some(43_829)))]);
    assert_eq!(young[0].severity, Severity::Fine);
    assert_eq!(
        young[0].observed,
        "43829 hours, about 5.0 years of powered operation"
    );
    let old = storage(&[drive(ata(None, None, Some(43_830)))]);
    assert_eq!(old[0].severity, Severity::Watch);
    assert_eq!(old[0].title, "Test Drive has 43830 power-on hours");
}

#[test]
fn remapping_grows_from_watch_to_problem() {
    let few = storage(&[drive(ata(None, Some(50), None))]);
    assert_eq!(few[0].severity, Severity::Watch);
    assert_eq!(few[0].observed, "50 reallocated sector(s)");
    let many = storage(&[drive(ata(None, Some(51), None))]);
    assert_eq!(many[0].severity, Severity::Problem);
    assert_eq!(many[0].title, "Test Drive has extensive sector remapping");
}

#[test]
fn worn_and_uncorrectable_drives_are_problems() {
    let mut a = ata(None, None, None);
    a.life_remaining_percent = Reading::value(19);
    a.uncorrectable_sectors = Reading::value(2);
    let f = storage(&[drive(a)]);
    assert_eq!(find(&f, "storage.life.0").observed, "19% endurance remaining");
    assert_eq!(find(&f, "storage.uncorrectable.0").observed, "2 uncorrectable sector(s)");
    let mut b = ata(None, None, None);
    b.life_remaining_percent = Reading::value(20);
    assert!(storage(&[drive(b)]).is_empty());
}

#[test]
fn nvme_rules_read_the_health_log() {
    let mut n = nvme();
    n.critical_warning = 0x0C;
    n.percentage_used = Reading::value(85);
    n.available_spare_percent = Reading::value(5);
    n.available_spare_threshold_percent = Reading::value(10);
    n.media_errors = Reading::value(4);
    let f = storage(&[drive_with(DriveHealth::Nvme(n))]);
    assert_eq!(find(&f, "storage.critical.0").observed, "critical warning bitmask 0x0C");
    assert_eq!(find(&f, "storage.used.0").severity, Severity::Watch);
    assert_eq!(find(&f, "storage.spare.0").expected, "at or above the drive's 10% threshold");
    assert_eq!(find(&f, "storage.media.0").observed, "4 media/data-integrity error(s)");
    assert_eq!(f[0].severity, Severity::Critical);
    assert_eq!(f[0].id, "storage.critical.0");
    assert_eq!(f[1].id, "storage.spare.0");

    let mut spent = nvme();
    spent.percentage_used = Reading::value(90);
    let f = storage(&[drive_with(DriveHealth::Nvme(spent))]);
    assert_eq!(find(&f, "storage.used.0").severity, Severity::Problem);
}

#[test]
fn a_drive_without_a_model_goes_by_its_number() {
    let mut d = drive(ata(Some(1), None, None));
    d.model = Reading::unsupported();
    d.index = 7;
    let f = storage(&[d]);
    assert_eq!(f[0].id, "storage.pending.7");
    assert_eq!(f[0].title, "Drive 7 has unreadable sectors");
}

#[test]
fn an_unreadable_drive_raises_nothing() {
    let mut d = drive(ata(Some(1), None, None));
    d.health = Reading::unsupported();
    assert!(storage(&[d]).is_empty());
}

fn pack(part: u64, whole: u64) -> BatteryReport {
    let mut r = probe_one(&BatteryReplies {
        information: None,
        status: None,
        device_name: None,
        manufacturer: None,
        serial_number: None,
        unique_id: None,
        manufacture_date: None,
        temperature: None,
        estimated_time: None,
    });
    r.health = Reading::value(Share { part, whole });
    r
}

fn history(swap: bool, rate: Option<i128>) -> Reading<BatteryHistory> {
    Reading::value(BatteryHistory {
        samples: Vec::new(),
        battery_swap_detected: swap,
        health_first: Reading::unsupported(),
        health_last: Reading::unsupported(),
        degradation_micro_percent_per_year: rate.into(),
        observation_days: 120,
    })
}

#[test]
fn wear_is_judged_by_share_of_design_capacity() {
    let packs = Reading::value(vec![pack(59, 100), pack(79, 100), pack(24198, 24420)]);
    let f = battery(&packs, &Reading::unsupported());
    assert_eq!(f.len(), 3);
    assert_eq!(f[0].id, "battery.health.0");
    assert_eq!(f[0].severity, Severity::Problem);
    assert_eq!(f[1].severity, Severity::Watch);
    assert_eq!(f[2].severity, Severity::Fine);
    assert_eq!(f[2].title, "Battery at 99% of design capacity");
    assert_eq!(f[2].observed, "99.1% of design capacity");
}

#[test]
fn swaps_and_fast_degradation_are_reported() {
    let f = battery(&Reading::unsupported(), &history(true, Some(-20_400_000)));
    assert_eq!(f[0].id, "battery.degradation");
    assert_eq!(f[0].observed, "about -20% of design capacity lost per year");
    assert_eq!(f[0].basis, "Least-squares fit over 120 days of Windows capacity history");
    assert_eq!(f[1].id, "battery.swapped");
    assert!(battery(&Reading::unsupported(), &history(false, Some(-15_000_000))).is_empty());
}

fn memory_report() -> MemoryReport {
    MemoryReport {
        modules: Vec::new(),
        total_mb: 8192,
        populated_slots: 1,
        total_slots: 2,
        channel_config: ChannelConfig::Dual,
        running_below_rated_speed: false,
        all_soldered: false,
        mismatched_modules: false,
    }
}

#[test]
fn memory_rules_read_the_configuration() {
    assert!(memory(&memory_report()).is_empty());
    let mut m = memory_report();
    m.channel_config = ChannelConfig::Single;
    m.running_below_rated_speed = true;
    m.all_soldered = true;
    let f = memory(&m);
    assert_eq!(f[0].observed, "1 of 2 slots populated, all on one channel");
    assert_eq!(f[1].id, "memory.below_rated");
    assert_eq!(f[2].observed, "8192 MB, all soldered to the board");
    let mut full = memory_report();
    full.channel_config = ChannelConfig::Single;
    full.total_slots = 1;
    assert!(memory(&full).is_empty());
    let mut odd = memory_report();
    odd.channel_config = ChannelConfig::Asymmetric;
    assert_eq!(memory(&odd)[0].id, "memory.asymmetric");
}

fn persistence(wpbt: bool, agent: bool, proxy: bool) -> FirmwarePersistence {
    probe_persistence(if wpbt { b"WPBT" } else { b"FACP" }, false, agent, proxy)
}

fn firmware_findings(p: FirmwarePersistence) -> Vec<Finding> {
    firmware(&pc_checker::probes::firmware::probe(&Err(WinError::new("x", 1)), p))
}

#[test]
fn an_agent_on_disk_outranks_an_injection_point() {
    let f = firmware_findings(persistence(true, true, true));
    assert_eq!(f.len(), 1);
    assert_eq!(f[0].severity, Severity::Critical);
    assert_eq!(
        f[0].observed,
        "found C:\\Windows\\System32\\rpcnet.exe, C:\\Windows\\System32\\rpcnetp.exe"
    );
    assert_eq!(firmware_findings(persistence(true, false, false))[0].id, "firmware.wpbt");
    assert!(firmware_findings(persistence(false, false, false)).is_empty());
}

fn adapter(is_software: bool) -> GpuReport {
    GpuReport {
        name: "x".into(),
        vendor: "AMD".into(),
        vendor_id: 0x1002,
        device_id: 1,
        subsystem_id: 0,
        revision: 0,
        dedicated_vram_bytes: 0,
        shared_memory_bytes: 0,
        is_software,
        has_output: true,
        driver_version: Reading::unsupported(),
        driver_date: Reading::unsupported(),
    }
}

#[test]
fn a_machine_with_software_rendering_only_is_a_problem() {
    assert_eq!(gpu(&[adapter(true), adapter(true)])[0].id, "gpu.software_only");
    assert!(gpu(&[adapter(true), adapter(false)]).is_empty());
    assert!(gpu(&[]).is_empty());
}

fn crashes(recent: usize, total: usize, whea: usize, shutdowns: usize) -> CrashHistory {
    let event = CrashEvent {
        timestamp: "2026-01-01T00:00:00Z".into(),
        source: "Kernel-Power".into(),
        event_id: 41,
        level: "Critical".into(),
    };
    CrashHistory {
        minidump_count: total,
        most_recent_minidump: Reading::unsupported(),
        minidumps_last_30_days: recent,
        full_memory_dump_present: false,
        whea_events: Reading::value(Vec::new()),
        whea_uncorrected_count: whea,
        unexpected_shutdowns: Reading::value(vec![event; shutdowns]),
    }
}

#[test]
fn stability_rules_count_crashes_errors_and_power_losses() {
    assert!(stability(&crashes(2, 9, 0, 19)).is_empty());
    let f = stability(&crashes(3, 9, 1, 20));
    assert_eq!(f[0].observed, "3 blue screens in the last 30 days (9 recorded in total)");
    assert_eq!(f[1].observed, "1 error-level WHEA events");
    assert_eq!(f[2].observed, "20 unexpected shutdowns recorded");
    assert_eq!(f[2].severity, Severity::Watch);
}

/// A machine with something to say about every component.
fn inventory() -> Inventory {
    let mut laptop: Vec<u8> = vec![3, 9, 0, 0, 0, 10, 0, 0, 0, 0, 0];
    laptop.extend_from_slice(&[127, 4, 0, 0, 0, 0]);
    let mut table: Vec<u8> = vec![0, 3, 4, 0];
    table.extend_from_slice(&(laptop.len() as u32).to_le_bytes());
    table.extend_from_slice(&laptop);
    let s = survey(MachineFacts {
        smbios: Ok(table),
        persistence: persistence(true, true, false),
        packs: Ok(vec![pack(50, 100)]),
        cpu: CpuFacts {
            max_leaf: 0,
            vendor_ebx: 0,
            vendor_ecx: 0,
            vendor_edx: 0,
            max_extended_leaf: 0,
            brand: vec![0; 12],
            leaf16_eax: 0,
            core_records: None,
            logical_processors: Some(8),
        },
        drives: vec![drive(ata(Some(3), Some(2), Some(82_093)))],
        gpus: Ok(vec![adapter(true)]),
        crashes: crashes(3, 9, 1, 20),
        elevated: true,
        collected_at: "2026-01-01T00:00:00Z".into(),
    });
    assert!(s.wants_battery_history());
    let xml = concat_report();
    collect(s, Ok(xml))
}

fn concat_report() -> String {
    let mut xml = String::from("<BatteryReport><History>");
    for (start, full, changed) in [("2026-01-01", 50000, 1), ("2026-04-01", 40000, 0)] {
        xml.push_str(&format!(
            r#"<HistoryEntry StartDate="{start}T00:00:00Z" EndDate="{start}T00:00:00Z" DesignCapacity="50000" FullChargeCapacity="{full}" CycleCount="0" BatteryChanged="{changed}" />"#
        ));
    }
    xml.push_str("</History></BatteryReport>");
    xml
}

#[test]
fn every_finding_can_justify_itself() {
    let inv = inventory();
    let all = evaluate(&inv);
    assert!(all.len() >= 10, "got {}", all.len());
    for f in all {
        assert!(!f.title.is_empty(), "finding {} has no title", f.id);
        assert!(!f.observed.is_empty(), "finding {} states nothing observed", f.id);
        assert!(!f.basis.is_empty(), "finding {} cites no basis", f.id);
        assert!(!f.recommendation.is_empty(), "finding {} gives no recommendation", f.id);
    }
}

#[test]
fn findings_findings_are_sorted_worst_first() {
    let inv = inventory();
    for pair in evaluate(&inv).windows(2) {
        assert!(
            pair[0].severity >= pair[1].severity,
            "findings out of order: {:?} before {:?}",
            pair[0].severity,
            pair[1].severity
        );
    }
}

#[test]
fn the_aggregate_holds_every_component() {
    let ids: Vec<String> = evaluate(&inventory()).into_iter().map(|f| f.id).collect();
    assert_eq!(
        ids,
        vec![
            "firmware.absolute",
            "storage.pending.0",
            "battery.health.0",
            "battery.degradation",
            "crashes.recent",
            "crashes.whea",
            "gpu.software_only",
            "storage.realloc.0",
            "storage.age.0",
            "battery.swapped",
            "crashes.power",
        ]
    );
}
