use pc_checker::model::Reading;
use pc_checker::probes::firmware::SmbiosStructure;
use pc_checker::probes::memory::{
    decode_size, detect_mismatch, form_factor_name, from_smbios, infer_channels, is_soldered,
    memory_type_name, ChannelConfig, MemoryModule, OFF_BANK_LOCATOR, OFF_CONFIGURED_SPEED,
    OFF_DEVICE_LOCATOR, OFF_EXTENDED_SIZE, OFF_FORM_FACTOR, OFF_MANUFACTURER, OFF_MEMORY_TYPE,
    OFF_PART_NUMBER, OFF_SERIAL, OFF_SIZE, OFF_SPEED,
};

fn module(size_mb: u64, slot: &str, rated: u16, configured: u16) -> MemoryModule {
    MemoryModule {
        slot: Reading::value(slot.to_string()),
        bank: Reading::unsupported(),
        size_mb,
        memory_type: "DDR4".into(),
        form_factor: "SODIMM".into(),
        soldered: false,
        rated_speed_mts: Reading::value(rated),
        configured_speed_mts: Reading::value(configured),
        manufacturer: Reading::value("Samsung".into()),
        part_number: Reading::value("M471A1K43CB1".into()),
        serial: Reading::unsupported(),
    }
}

/// A Type 17 structure with the fields that are read.
fn synthetic_type17(
    size: u16,
    extended_size: u32,
    rated: u16,
    configured: u16,
    form_factor: u8,
) -> SmbiosStructure {
    let mut f: Vec<u8> = vec![0u8; 0x28];
    f[0] = 17;
    f[1] = 0x28;
    f[OFF_SIZE..OFF_SIZE + 2].copy_from_slice(&size.to_le_bytes());
    f[OFF_FORM_FACTOR] = form_factor;
    f[OFF_DEVICE_LOCATOR] = 1;
    f[OFF_BANK_LOCATOR] = 0;
    f[OFF_MEMORY_TYPE] = 0x1A;
    f[OFF_SPEED..OFF_SPEED + 2].copy_from_slice(&rated.to_le_bytes());
    f[OFF_MANUFACTURER] = 2;
    f[OFF_SERIAL] = 0;
    f[OFF_PART_NUMBER] = 3;
    f[OFF_EXTENDED_SIZE..OFF_EXTENDED_SIZE + 4].copy_from_slice(&extended_size.to_le_bytes());
    f[OFF_CONFIGURED_SPEED..OFF_CONFIGURED_SPEED + 2].copy_from_slice(&configured.to_le_bytes());

    SmbiosStructure {
        struct_type: 17,
        formatted: f,
        strings: vec!["ChannelA-DIMM0".into(), "Samsung".into(), "M471A1K43CB1".into()],
    }
}

#[test]
fn two_modules_across_two_channels_is_dual() {
    let m = vec![
        module(8192, "ChannelA-DIMM0", 3200, 3200),
        module(8192, "ChannelB-DIMM0", 3200, 3200),
    ];
    assert_eq!(infer_channels(&m), ChannelConfig::Dual);
}

#[test]
fn both_modules_on_one_channel_is_single() {
    let m = vec![
        module(8192, "ChannelA-DIMM0", 3200, 3200),
        module(8192, "ChannelA-DIMM1", 3200, 3200),
    ];
    assert_eq!(infer_channels(&m), ChannelConfig::Single);
}

#[test]
fn unequal_modules_are_asymmetric_not_dual() {
    let m = vec![
        module(8192, "ChannelA-DIMM0", 3200, 3200),
        module(16384, "ChannelB-DIMM0", 3200, 3200),
    ];
    assert_eq!(infer_channels(&m), ChannelConfig::Asymmetric);
}

#[test]
fn single_module_is_single_channel() {
    let m = vec![module(8192, "DIMM A", 3200, 3200)];
    assert_eq!(infer_channels(&m), ChannelConfig::Single);
}

#[test]
fn size_decoding_handles_kilobyte_flag_and_extended_size() {
    let d = synthetic_type17(8192, 0, 3200, 3200, 0x0C);
    assert_eq!(decode_size(&d), 8192);

    let d = synthetic_type17(0x7FFF, 32768, 3200, 3200, 0x0C);
    assert_eq!(decode_size(&d), 32768);
}

#[test]
fn sizes_in_kilobytes_and_unknown_sizes_are_decoded() {
    assert_eq!(decode_size(&synthetic_type17(0x8000 | 4096, 0, 0, 0, 0x0C)), 4);
    assert_eq!(decode_size(&synthetic_type17(0xFFFF, 0, 0, 0, 0x0C)), 0);
}

#[test]
fn empty_slot_reports_zero_and_is_skipped() {
    let d = synthetic_type17(0, 0, 0, 0, 0x0C);
    assert_eq!(decode_size(&d), 0);
    let report = from_smbios(&[d]);
    assert_eq!(report.populated_slots, 0);
    assert_eq!(report.total_slots, 1, "an empty slot still counts as a slot");
}

#[test]
fn xmp_not_applied_is_detected() {
    let d = synthetic_type17(8192, 0, 3200, 2666, 0x0C);
    let report = from_smbios(&[d]);
    assert!(
        report.running_below_rated_speed,
        "3200 MT/s memory running at 2666 should be flagged"
    );
}

#[test]
fn small_speed_reporting_jitter_is_not_flagged() {
    let d = synthetic_type17(8192, 0, 3200, 3200, 0x0C);
    let report = from_smbios(&[d]);
    assert!(!report.running_below_rated_speed);
}

#[test]
fn soldered_memory_is_detected() {
    let d = synthetic_type17(16384, 0, 6400, 6400, 0x0F);
    let report = from_smbios(&[d]);
    assert!(report.all_soldered, "form factor 0x0F means soldered");
    assert!(!report.modules[0].slot.is_ok() || report.modules[0].soldered);
}

#[test]
fn memory_type_codes_decode() {
    assert_eq!(memory_type_name(0x1A), "DDR4");
    assert_eq!(memory_type_name(0x22), "DDR5");
    assert_eq!(memory_type_name(0x23), "LPDDR5");
}

#[test]
fn the_report_totals_its_modules() {
    let a = synthetic_type17(8192, 0, 3200, 3200, 0x0D);
    let b = synthetic_type17(4096, 0, 3200, 3200, 0x0D);
    let report = from_smbios(&[a, b]);
    assert_eq!(report.total_mb, 12288);
    assert_eq!(report.populated_slots, 2);
    assert!(report.mismatched_modules);
    assert!(!report.all_soldered);
    let m = &report.modules[0];
    assert_eq!(m.slot.get(), Some(&"ChannelA-DIMM0".to_string()));
    assert_eq!(m.manufacturer.get(), Some(&"Samsung".to_string()));
    assert_eq!(m.rated_speed_mts.get(), Some(&3200));
    assert_eq!(m.memory_type, "DDR4");
    assert_eq!(m.form_factor, "SODIMM");
}

#[test]
fn a_configured_speed_at_the_top_of_its_range_does_not_overflow() {
    let report = from_smbios(&[synthetic_type17(8192, 0, 65535, 65534, 0x0C)]);
    assert!(!report.running_below_rated_speed);
}

#[test]
fn equal_modules_do_not_mismatch() {
    let same = vec![module(8192, "A", 3200, 3200), module(8192, "B", 3200, 3200)];
    assert!(!detect_mismatch(&same));
    let other = vec![module(8192, "A", 3200, 3200), module(8192, "B", 2666, 2666)];
    assert!(detect_mismatch(&other));
}

#[test]
fn only_rows_of_chips_are_soldered() {
    assert!(is_soldered(0x0F));
    assert!(!is_soldered(0x0D));
    assert_eq!(form_factor_name(0x08), "DIMM");
}
