use pc_checker::probes::firmware::{
    build_identity, chassis_form_factor, find_absolute_artifacts, format_uuid, is_placeholder,
    parse_smbios, probe, probe_persistence, read_smbios, smbios_version, FormFactor,
};
use pc_checker::win::WinError;

/// A minimal but valid SMBIOS blob: header + one Type 1 structure.
fn synthetic_smbios() -> Vec<u8> {
    let mut table: Vec<u8> = Vec::new();
    table.extend_from_slice(&[0x01, 0x1B, 0x01, 0x00]);
    table.push(0x01);
    table.push(0x02);
    table.push(0x00);
    table.push(0x03);
    table.extend_from_slice(&[0xAA; 16]);
    table.push(0x00);
    table.push(0x04);
    table.push(0x00);
    for s in ["MSI Corp.", "MS-N014", "To Be Filled By O.E.M.", "SKU-7"] {
        table.extend_from_slice(s.as_bytes());
        table.push(0);
    }
    table.push(0);
    with_header(&table)
}

fn with_header(table: &[u8]) -> Vec<u8> {
    let mut raw: Vec<u8> = vec![0x00, 0x03, 0x04, 0x00];
    raw.extend_from_slice(&(table.len() as u32).to_le_bytes());
    raw.extend_from_slice(table);
    raw
}

#[test]
fn parses_structure_and_string_table() {
    let structs = parse_smbios(&synthetic_smbios());
    assert_eq!(structs.len(), 1);
    let s = &structs[0];
    assert_eq!(s.struct_type, 1);
    assert_eq!(s.string_at(0x04).as_deref(), Some("MSI Corp."));
    assert_eq!(s.string_at(0x05).as_deref(), Some("MS-N014"));
    assert_eq!(s.string_at(0x19).as_deref(), Some("SKU-7"));
}

#[test]
fn structure_without_strings_does_not_desync_the_walk() {
    let mut table: Vec<u8> = Vec::new();
    table.extend_from_slice(&[126, 0x04, 0x10, 0x00]);
    table.extend_from_slice(&[0x00, 0x00]);
    table.extend_from_slice(&[17, 0x08, 0x11, 0x00, 0x00, 0x00, 0x00, 0x01]);
    table.extend_from_slice(b"DIMM 0\0\0");

    let mut raw: Vec<u8> = vec![0x00, 0x03, 0x07, 0x00];
    raw.extend_from_slice(&(table.len() as u32).to_le_bytes());
    raw.extend_from_slice(&table);

    let structs = parse_smbios(&raw);
    assert_eq!(structs.len(), 2, "string-less structure desynced the walk");
    assert_eq!(structs[0].struct_type, 126);
    assert_eq!(structs[1].struct_type, 17, "Type 17 became unreachable");
    assert_eq!(structs[1].strings, vec!["DIMM 0".to_string()]);
}

#[test]
fn unset_string_index_yields_none() {
    let structs = parse_smbios(&synthetic_smbios());
    assert_eq!(structs[0].string_at(0x06), None, "index 0 means 'not set'");
}

#[test]
fn oem_placeholders_are_rejected() {
    let structs = parse_smbios(&synthetic_smbios());
    assert_eq!(structs[0].string_at(0x07), None, "placeholder leaked through");

    assert!(is_placeholder("To Be Filled By O.E.M."));
    assert!(is_placeholder("Default string"));
    assert!(is_placeholder("System Serial Number"));
    assert!(is_placeholder("  none "));
    assert!(is_placeholder("0000000"));
    assert!(!is_placeholder("5CD9174TXK"));
}

#[test]
fn malformed_table_does_not_panic_or_overrun() {
    assert!(parse_smbios(&[]).is_empty());
    assert!(parse_smbios(&[0, 1, 2]).is_empty());
    let raw: Vec<u8> = vec![0x00, 0x03, 0x04, 0x00, 0xFF, 0xFF, 0xFF, 0x7F, 0x01, 0x1B];
    let _ = parse_smbios(&raw);
}

#[test]
fn uuid_first_three_groups_are_little_endian() {
    let b: Vec<u8> = (0u8..16).collect();
    assert!(format_uuid(&b).starts_with("03020100-0504-0706-0809-"));
}

#[test]
fn uuids_are_formatted_in_full() {
    let b: Vec<u8> = (0u8..16).collect();
    assert_eq!(format_uuid(&b), "03020100-0504-0706-0809-0A0B0C0D0E0F");
}

#[test]
fn chassis_codes_classify_portables_as_laptops() {
    for code in [8u8, 9, 10, 14, 31] {
        assert_eq!(chassis_form_factor(code), FormFactor::Laptop, "code {code}");
    }
    assert_eq!(chassis_form_factor(3), FormFactor::Desktop);
    assert_eq!(chassis_form_factor(13), FormFactor::AllInOne);
    assert_eq!(chassis_form_factor(10 | 0x80), FormFactor::Laptop);
}

#[test]
fn every_class_of_chassis_has_a_code() {
    assert_eq!(chassis_form_factor(30), FormFactor::Tablet);
    assert_eq!(chassis_form_factor(17), FormFactor::Server);
    assert_eq!(chassis_form_factor(2), FormFactor::Unknown);
}

#[test]
fn fields_are_read_in_little_endian_order_and_within_bounds() {
    let structs = parse_smbios(&synthetic_smbios());
    let s = &structs[0];
    assert_eq!(s.byte_at(1), Some(0x1B));
    assert_eq!(s.word_at(2), Some(0x0001));
    assert_eq!(s.dword_at(8), Some(0xAAAA_AAAA));
    assert_eq!(s.byte_at(0x1B), None);
    assert_eq!(s.word_at(0x1A), None);
    assert_eq!(s.dword_at(0x18), None);
}

#[test]
fn the_walk_stops_at_the_end_marker() {
    let mut table: Vec<u8> = Vec::new();
    table.extend_from_slice(&[127, 0x04, 0x00, 0x00, 0x00, 0x00]);
    table.extend_from_slice(&[17, 0x04, 0x00, 0x00, 0x00, 0x00]);
    let structs = parse_smbios(&with_header(&table));
    assert_eq!(structs.len(), 1);
    assert_eq!(structs[0].struct_type, 127);
}

#[test]
fn identity_comes_from_the_system_structure() {
    let structs = parse_smbios(&synthetic_smbios());
    let id = build_identity(&structs, Some("3.4".to_string()));
    assert_eq!(id.manufacturer.get(), Some(&"MSI Corp.".to_string()));
    assert_eq!(id.product_name.get(), Some(&"MS-N014".to_string()));
    assert!(!id.serial_number.is_ok());
    assert!(!id.family.is_ok());
    assert_eq!(id.uuid.get(), Some(&"AAAAAAAA-AAAA-AAAA-AAAA-AAAAAAAAAAAA".to_string()));
    assert_eq!(id.smbios_version.get(), Some(&"3.4".to_string()));
    assert_eq!(id.form_factor, FormFactor::Unknown);
    assert!(!id.bios_vendor.is_ok());
}

#[test]
fn the_table_header_carries_the_version() {
    assert_eq!(smbios_version(&synthetic_smbios()), Some("3.4".to_string()));
    assert_eq!(smbios_version(&[0, 3]), None);
}

#[test]
fn an_unreadable_table_has_no_structures() {
    let (structs, version) = read_smbios(&Err(WinError::new("GetSystemFirmwareTable", 1)));
    assert!(structs.is_empty());
    assert!(version.is_none());
    let (structs, version) = read_smbios(&Ok(synthetic_smbios()));
    assert_eq!(structs.len(), 1);
    assert_eq!(version, Some("3.4".to_string()));
}

#[test]
fn persistence_lists_tables_and_agents() {
    let p = probe_persistence(b"FACPWPBTDSDT", true, false, true);
    assert!(p.wpbt_present);
    assert!(p.wpbt_launcher_present);
    assert_eq!(p.acpi_tables, vec!["FACP".to_string(), "WPBT".to_string(), "DSDT".to_string()]);
    assert_eq!(p.absolute_agent_artifacts, vec!["C:\\Windows\\System32\\rpcnetp.exe".to_string()]);

    let clean = probe_persistence(b"FACPDSDT", false, false, false);
    assert!(!clean.wpbt_present);
    assert!(clean.absolute_agent_artifacts.is_empty());
}

#[test]
fn both_agent_files_are_named() {
    assert_eq!(find_absolute_artifacts(true, true).len(), 2);
    assert!(find_absolute_artifacts(false, false).is_empty());
}

#[test]
fn the_firmware_report_joins_identity_and_persistence() {
    let r = probe(&Ok(synthetic_smbios()), probe_persistence(b"WPBT", false, false, false));
    assert_eq!(r.identity.sku.get(), Some(&"SKU-7".to_string()));
    assert!(r.persistence.wpbt_present);
}

/// A table as firmware lays it out: BIOS, system, a structure without strings, a memory device,
/// the end marker.
fn recorded_table() -> Vec<u8> {
    let mut table: Vec<u8> = Vec::new();
    table.extend_from_slice(&[0, 0x09, 0x00, 0x00, 1, 2, 0, 0xE0, 3]);
    table.extend_from_slice(b"American Megatrends\x001.40\x0004/12/2023\x00\x00");
    table.extend_from_slice(&synthetic_smbios()[8..]);
    table.extend_from_slice(&[126, 0x04, 0x10, 0x00, 0x00, 0x00]);
    table.extend_from_slice(&[17, 0x08, 0x11, 0x00, 0x00, 0x00, 0x00, 0x01]);
    table.extend_from_slice(b"DIMM 0\0\0");
    table.extend_from_slice(&[127, 0x04, 0xFE, 0xFF, 0x00, 0x00]);
    with_header(&table)
}

#[test]
fn memory_devices_are_reachable_on_this_machine() {
    let (structs, _) = read_smbios(&Ok(recorded_table()));
    assert!(
        structs.iter().any(|s| s.struct_type == 17),
        "no Type 17 memory devices found; parsed {} structures: {:?}",
        structs.len(),
        structs.iter().map(|s| s.struct_type).collect::<Vec<_>>()
    );
}

#[test]
fn smbios_is_readable_on_this_machine() {
    let structs = parse_smbios(&recorded_table());
    assert!(!structs.is_empty(), "parsed no SMBIOS structures");
    assert!(structs.iter().any(|s| s.struct_type == 0), "no BIOS structure");
    assert!(structs.iter().any(|s| s.struct_type == 1), "no System structure");
    let identity = build_identity(&structs, None);
    assert_eq!(identity.bios_vendor.get(), Some(&"American Megatrends".to_string()));
    assert_eq!(identity.bios_release_date.get(), Some(&"04/12/2023".to_string()));
}

#[test]
fn acpi_enumeration_works_on_this_machine() {
    let sigs = probe_persistence(b"FACPDSDTSSDT", false, false, false).acpi_tables;
    assert!(!sigs.is_empty(), "no ACPI tables reported");
}
