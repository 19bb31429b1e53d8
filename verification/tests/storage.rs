use pc_checker::model::{Reading, Unavailable};
use pc_checker::probes::storage::{
    bus_type_name, descriptor_request, drive_health, health_query, nvme_health_from, nvme_request,
    parse_descriptor, parse_nvme_health, probe_drive, DriveHealth, DriveScan, HealthQuery,
    HealthReply, NVME_REPLY_SIZE, PROPERTY_QUERY_SIZE, PROTOCOL_QUERY_SIZE, PROTOCOL_SPECIFIC_SIZE,
};
use pc_checker::win::WinError;

fn log_with(fields: &[(usize, u64)]) -> Vec<u8> {
    let mut log: Vec<u8> = vec![0u8; 512];
    for &(off, val) in fields {
        log[off..off + 8].copy_from_slice(&val.to_le_bytes());
    }
    log
}

#[test]
fn decodes_the_odometer_fields() {
    let mut log = log_with(&[(128, 14_236), (112, 1_842), (144, 37)]);
    log[5] = 8;
    log[3] = 100;

    let h = parse_nvme_health(&log);
    assert_eq!(h.power_on_hours.get(), Some(&14_236));
    assert_eq!(h.power_cycles.get(), Some(&1_842));
    assert_eq!(h.unsafe_shutdowns.get(), Some(&37));
    assert_eq!(h.percentage_used.get(), Some(&8));
    assert_eq!(h.available_spare_percent.get(), Some(&100));
}

#[test]
fn terabytes_written_uses_the_512000_byte_data_unit() {
    let log = log_with(&[(48, 1_953_125)]);
    let h = parse_nvme_health(&log);
    let tbw = *h.bytes_written.get().unwrap() as f64 / 1e12;
    assert!((tbw - 1.0).abs() < 0.001, "expected ~1.0 TB, got {tbw}");
}

#[test]
fn temperature_converts_from_absolute_kelvin() {
    let mut log: Vec<u8> = vec![0u8; 512];
    log[1..3].copy_from_slice(&313u16.to_le_bytes());
    let h = parse_nvme_health(&log);
    let t = *h.composite_temp_centi_c.get().unwrap() as f64 / 100.0;
    assert!((t - 39.85).abs() < 0.1, "got {t}");
    assert_eq!(h.composite_temp_centi_c.get(), Some(&3985));
}

#[test]
fn zero_temperature_means_not_reported_not_freezing() {
    let log: Vec<u8> = vec![0u8; 512];
    let h = parse_nvme_health(&log);
    assert!(!h.composite_temp_centi_c.is_ok(), "0 K must not be reported as -273 C");
}

#[test]
fn an_impossible_temperature_is_not_a_value() {
    let mut log: Vec<u8> = vec![0u8; 512];
    log[1..3].copy_from_slice(&900u16.to_le_bytes());
    let h = parse_nvme_health(&log);
    match h.composite_temp_centi_c {
        Reading::Missing { reason, .. } => {
            assert!(matches!(reason, Unavailable::ImplausibleValue(_)))
        }
        Reading::Value { .. } => panic!("900 K is no drive temperature"),
    }
}

#[test]
fn short_log_does_not_panic() {
    let h = parse_nvme_health(&[0u8; 16]);
    assert!(!h.power_on_hours.is_ok());
}

#[test]
fn storage_struct_layouts_match_the_kernel_abi() {
    assert_eq!(PROTOCOL_SPECIFIC_SIZE, 40);
    assert_eq!(PROPERTY_QUERY_SIZE, 16);
    assert_eq!(PROTOCOL_QUERY_SIZE, 48);
}

#[test]
fn nvme_bus_type_is_recognised() {
    assert_eq!(bus_type_name(0x11), "NVMe");
    assert_eq!(bus_type_name(0x0B), "SATA");
}

fn descriptor_bytes(bus: u32) -> Vec<u8> {
    let mut d: Vec<u8> = vec![0u8; 36];
    d[10] = 1;
    d[16..20].copy_from_slice(&36u32.to_le_bytes());
    d[20..24].copy_from_slice(&0u32.to_le_bytes());
    d[24..28].copy_from_slice(&47u32.to_le_bytes());
    d[28..32].copy_from_slice(&bus.to_le_bytes());
    d.extend_from_slice(b" Model X1 \0S123\0");
    d
}

#[test]
fn descriptors_hold_trimmed_texts_at_their_offsets() {
    let d = parse_descriptor(&descriptor_bytes(0x11)).unwrap();
    assert_eq!(d.product, Some("Model X1".to_string()));
    assert_eq!(d.serial, Some("S123".to_string()));
    assert_eq!(d.revision, None);
    assert_eq!(d.bus_type, 0x11);
    assert!(d.removable);
    assert!(parse_descriptor(&[0u8; 35]).is_none());
}

#[test]
fn the_bus_decides_the_command_set() {
    let nvme = parse_descriptor(&descriptor_bytes(0x11));
    let sata = parse_descriptor(&descriptor_bytes(0x0B));
    let usb = parse_descriptor(&descriptor_bytes(0x07));
    assert!(matches!(health_query(&nvme), HealthQuery::Nvme));
    assert!(matches!(health_query(&sata), HealthQuery::Ata));
    assert!(matches!(health_query(&usb), HealthQuery::Nothing));
    assert!(matches!(health_query(&None), HealthQuery::Nothing));
}

#[test]
fn requests_have_their_documented_lengths() {
    assert_eq!(descriptor_request(), vec![0u8; PROPERTY_QUERY_SIZE]);
    let q = nvme_request();
    assert_eq!(q.len(), PROTOCOL_QUERY_SIZE);
    assert_eq!(q[0], 50);
    assert_eq!(q[8], 3);
    assert_eq!(q[12], 2);
    assert_eq!(q[16], 2);
}

#[test]
fn a_truncated_health_log_is_an_error() {
    let mut reply: Vec<u8> = vec![0u8; NVME_REPLY_SIZE];
    reply[48 + 5] = 12;
    let e = nvme_health_from(&reply, 239).unwrap_err();
    assert_eq!(e.context, "nvme health log truncated");
    assert_eq!(e.code, 239);
    let h = nvme_health_from(&reply, 560).unwrap();
    assert_eq!(h.percentage_used.get(), Some(&12));
}

#[test]
fn drive_reports_join_descriptor_and_health() {
    let health = parse_nvme_health(&log_with(&[(128, 10)]));
    let r = probe_drive(
        3,
        parse_descriptor(&descriptor_bytes(0x11)),
        HealthReply::Nvme(Ok(health)),
    );
    assert_eq!(r.index, 3);
    assert_eq!(r.bus_type, "NVMe");
    match r.health.get() {
        Some(DriveHealth::Nvme(n)) => assert_eq!(n.power_on_hours.get(), Some(&10)),
        _ => panic!("expected NVMe health"),
    }
    let bare = probe_drive(0, None, HealthReply::Nothing);
    assert_eq!(bare.bus_type, "Unknown");
    assert!(!bare.model.is_ok());
    assert!(!bare.health.is_ok());
    let failed = drive_health(HealthReply::Nvme(Err(WinError::new("query", 1))));
    match failed {
        Reading::Missing { note, .. } => assert_eq!(note, "query failed: query failed (os error 1)"),
        Reading::Value { .. } => panic!("expected missing"),
    }
}

#[test]
fn the_scan_goes_over_gaps_and_gives_up_after_enough_misses() {
    let mut s = DriveScan::new();
    assert_eq!(s.next_index(), Some(0));
    s.record(true);
    for _ in 0..7 {
        s.record(false);
        assert!(s.next_index().is_some());
    }
    s.record(false);
    assert_eq!(s.next_index(), None);
    assert_eq!(s.index, 9);

    let mut empty = DriveScan::new();
    let mut tried: u32 = 0;
    while empty.next_index().is_some() {
        empty.record(false);
        tried += 1;
    }
    assert_eq!(tried, 16);
}

#[test]
fn read_struct_rejects_short_buffers() {
    let short = [0u8; 4];
    assert!(parse_descriptor(&short).is_none());
}

/// One drive at index 1, after a gap.
#[test]
fn probing_this_machine_finds_at_least_one_drive() {
    let mut drives = Vec::new();
    let mut scan = DriveScan::new();
    while let Some(index) = scan.next_index() {
        let opened = index == 1;
        scan.record(opened);
        if opened {
            let descriptor = parse_descriptor(&descriptor_bytes(0x07));
            drives.push(probe_drive(index, descriptor, HealthReply::Nothing));
        }
    }
    assert!(!drives.is_empty(), "no physical drives enumerated");
    assert_eq!(drives[0].index, 1);
    assert_eq!(drives[0].bus_type, "USB");
}
