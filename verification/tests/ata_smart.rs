use pc_checker::model::{Reading, Unavailable};
use pc_checker::probes::ata_smart::{
    after_legacy, after_open, after_passthrough, attribute_name, classify_failure, legacy_request,
    legacy_sector, parse_smart, passthrough_request, passthrough_sector, AtaHealth, SmartStep,
    ATA_PASS_THROUGH_SIZE, IDE_REGS_SIZE, SECTOR_SIZE, SEND_CMD_IN_SIZE, SEND_CMD_OUT_HEADER_SIZE,
};
use pc_checker::win::WinError;

/// A SMART sector with the given (id, current, worst, raw) attributes.
fn sector_with(attrs: &[(u8, u8, u8, u64)]) -> Vec<u8> {
    let mut s: Vec<u8> = vec![0u8; SECTOR_SIZE];
    s[0] = 0x10;
    for (i, &(id, current, worst, raw)) in attrs.iter().enumerate() {
        let off: usize = 2 + i * 12;
        s[off] = id;
        s[off + 3] = current;
        s[off + 4] = worst;
        for b in 0..6 {
            s[off + 5 + b] = ((raw >> (8 * b)) & 0xFF) as u8;
        }
    }
    s
}

fn reason_of(r: &Reading<AtaHealth>) -> Unavailable {
    match r {
        Reading::Missing { reason, .. } => reason.clone(),
        Reading::Value { .. } => panic!("expected missing"),
    }
}

#[test]
fn struct_layout_matches_ntddscsi_h() {
    assert_eq!(ATA_PASS_THROUGH_SIZE, 56);
    assert_eq!(IDE_REGS_SIZE, 8);
    assert_eq!(SEND_CMD_IN_SIZE, 32);
    assert_eq!(SEND_CMD_OUT_HEADER_SIZE, 16);
}

#[test]
fn both_transports_failing_as_unsupported_reads_as_hardware_limitation() {
    let r = classify_failure(&WinError::new("legacy", 1), &WinError::new("passthrough", 1306));
    assert!(!r.is_ok());
    assert_eq!(reason_of(&r), Unavailable::NotSupportedByHardware);
}

#[test]
fn access_denied_on_either_transport_asks_for_elevation() {
    let r = classify_failure(&WinError::new("legacy", 5), &WinError::new("pt", 1306));
    assert_eq!(reason_of(&r), Unavailable::RequiresElevation);
}

#[test]
fn other_failures_name_both_transports() {
    let r = classify_failure(&WinError::new("legacy", 31), &WinError::new("pt", 1306));
    assert_eq!(
        reason_of(&r),
        Unavailable::QueryFailed(
            "legacy: legacy failed (os error 31); pass-through: pt failed (os error 1306)".to_string()
        )
    );
}

#[test]
fn decodes_the_odometer_attributes() {
    let s = sector_with(&[(9, 95, 95, 21_544), (12, 99, 99, 3_812)]);
    let h = parse_smart(&s);
    assert_eq!(h.power_on_hours.get(), Some(&21_544));
    assert_eq!(h.power_cycles.get(), Some(&3_812));
}

#[test]
fn surfaces_failing_sector_counts() {
    let s = sector_with(&[(5, 100, 100, 8), (197, 100, 100, 3), (198, 100, 100, 1)]);
    let h = parse_smart(&s);
    assert_eq!(h.reallocated_sectors.get(), Some(&8));
    assert_eq!(h.pending_sectors.get(), Some(&3));
    assert_eq!(h.uncorrectable_sectors.get(), Some(&1));
}

#[test]
fn temperature_reads_from_the_low_byte() {
    let s = sector_with(&[(194, 100, 100, 0x0018_0020_002A)]);
    let h = parse_smart(&s);
    assert_eq!(h.temperature_c.get(), Some(&42));
}

#[test]
fn falls_back_to_airflow_temperature() {
    let s = sector_with(&[(190, 100, 100, 38)]);
    let h = parse_smart(&s);
    assert_eq!(h.temperature_c.get(), Some(&38));
}

#[test]
fn ssd_life_uses_the_normalised_value() {
    let s = sector_with(&[(231, 87, 87, 0)]);
    let h = parse_smart(&s);
    assert_eq!(h.life_remaining_percent.get(), Some(&87));
}

#[test]
fn missing_endurance_attribute_is_unavailable() {
    let s = sector_with(&[(9, 95, 95, 100)]);
    let h = parse_smart(&s);
    assert!(!h.life_remaining_percent.is_ok());
}

#[test]
fn tbw_converts_from_512_byte_lbas() {
    let s = sector_with(&[(241, 100, 100, 1_953_125_000)]);
    let h = parse_smart(&s);
    let tbw = *h.bytes_written.get().unwrap() as f64 / 1e12;
    assert!((tbw - 1.0).abs() < 0.01, "got {tbw}");
    assert_eq!(h.bytes_written.get(), Some(&1_000_000_000_000));
}

#[test]
fn rejects_vendor_units_that_imply_impossible_writes() {
    let s = sector_with(&[(241, 100, 100, u64::MAX >> 16)]);
    let h = parse_smart(&s);
    assert!(!h.bytes_written.is_ok(), "implausible TBW should be rejected, not printed");
}

#[test]
fn unused_attribute_slots_are_skipped() {
    let s = sector_with(&[(9, 95, 95, 100)]);
    let h = parse_smart(&s);
    assert_eq!(h.attributes.len(), 1, "empty slots must not become entries");
}

#[test]
fn short_sector_does_not_panic() {
    let h = parse_smart(&[0u8; 8]);
    assert!(h.attributes.is_empty());
}

#[test]
fn attributes_carry_their_names_and_values() {
    let h = parse_smart(&sector_with(&[(5, 98, 97, 0x0102_0304_0506)]));
    let a = &h.attributes[0];
    assert_eq!(a.id, 5);
    assert_eq!(a.name, attribute_name(5));
    assert_eq!(a.current, 98);
    assert_eq!(a.worst, 97);
    assert_eq!(a.raw, 0x0102_0304_0506);
}

#[test]
fn transports_are_tried_in_turn() {
    assert!(matches!(after_open(&Ok(())), SmartStep::ReadLegacy));
    match after_open(&Err(WinError::new("CreateFileW", 5))) {
        SmartStep::Done(r) => assert_eq!(reason_of(&r), Unavailable::RequiresElevation),
        _ => panic!("a drive that cannot be opened is done"),
    }
    match after_legacy(Err(WinError::new("legacy", 1))) {
        SmartStep::ReadPassThrough { legacy } => assert_eq!(legacy.code, 1),
        _ => panic!("a failed legacy read leads on to pass-through"),
    }
    match after_legacy(Ok(sector_with(&[(9, 1, 1, 7)]))) {
        SmartStep::Done(r) => assert_eq!(r.get().unwrap().power_on_hours.get(), Some(&7)),
        _ => panic!("a legacy read that worked is done"),
    }
    let r = after_passthrough(&WinError::new("legacy", 1), &Ok(sector_with(&[(12, 1, 1, 9)])));
    assert_eq!(r.get().unwrap().power_cycles.get(), Some(&9));
    let r = after_passthrough(&WinError::new("legacy", 1), &Err(WinError::new("pt", 50)));
    assert_eq!(reason_of(&r), Unavailable::NotSupportedByHardware);
}

#[test]
fn requests_have_the_layout_of_their_structures() {
    let legacy = legacy_request();
    assert_eq!(legacy.len(), SEND_CMD_IN_SIZE);
    assert_eq!(&legacy[..12], &[0, 2, 0, 0, 0xD0, 1, 1, 0x4F, 0xC2, 0xA0, 0xB0, 0]);
    let pt = passthrough_request();
    assert_eq!(pt.len(), ATA_PASS_THROUGH_SIZE + SECTOR_SIZE);
    assert_eq!(pt[0], 56);
    assert_eq!(pt[2], 3);
    assert_eq!(&pt[48..56], &[0xD0, 1, 0, 0x4F, 0xC2, 0, 0xB0, 0]);
}

#[test]
fn replies_hold_a_sector_after_their_header() {
    let mut reply: Vec<u8> = vec![0u8; SEND_CMD_OUT_HEADER_SIZE + SECTOR_SIZE];
    reply[SEND_CMD_OUT_HEADER_SIZE] = 0x10;
    let sector = legacy_sector(&reply, 528).unwrap();
    assert_eq!(sector.len(), SECTOR_SIZE);
    assert_eq!(sector[0], 0x10);
    let e = legacy_sector(&reply, 527).unwrap_err();
    assert_eq!(e.context, "SMART_RCV_DRIVE_DATA short buffer");
    assert_eq!(e.code, 527);

    let mut reply: Vec<u8> = vec![0u8; ATA_PASS_THROUGH_SIZE + SECTOR_SIZE];
    reply[ATA_PASS_THROUGH_SIZE] = 0x20;
    assert_eq!(passthrough_sector(&reply, 568).unwrap()[0], 0x20);
    assert_eq!(passthrough_sector(&reply, 100).unwrap_err().code, 100);
}
