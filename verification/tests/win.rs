use pc_checker::win::device::{
    detail_path, interface_paths, physical_drive_path, Guid, ERROR_NO_MORE_ITEMS,
    GUID_DEVICE_BATTERY, GUID_DEVINTERFACE_DISK,
};
use pc_checker::win::ioctl::{
    ctl_code, IOCTL_ATA_PASS_THROUGH, IOCTL_BATTERY_QUERY_INFORMATION, IOCTL_BATTERY_QUERY_STATUS,
    IOCTL_BATTERY_QUERY_TAG, IOCTL_STORAGE_QUERY_PROPERTY, SMART_GET_VERSION, SMART_RCV_DRIVE_DATA,
};
use pc_checker::win::pci_lock::acquired;
use pc_checker::win::registry::read_hklm_string;
use pc_checker::win::{to_wide, wide_to_string, WinError};

#[test]
fn wide_decoding_stops_at_nul() {
    let buf: Vec<u16> = "MS-N014\0garbage".encode_utf16().collect();
    assert_eq!(wide_to_string(&buf), "MS-N014");
}

#[test]
fn wide_decoding_tolerates_missing_terminator() {
    let buf: Vec<u16> = "MSI Corp.".encode_utf16().collect();
    assert_eq!(wide_to_string(&buf), "MSI Corp.");
}

#[test]
fn roundtrip_wide() {
    let w = to_wide("Lithium Ion");
    assert_eq!(*w.last().unwrap(), 0);
    assert_eq!(wide_to_string(&w), "Lithium Ion");
}

#[test]
fn wide_text_beyond_the_basic_plane_comes_back() {
    let text = "drive 💾 β";
    assert_eq!(wide_to_string(&to_wide(text)), text);
    let expected: Vec<u16> = text.encode_utf16().chain(std::iter::once(0)).collect();
    assert_eq!(to_wide(text), expected);
}

#[test]
fn unpaired_surrogates_are_replaced() {
    assert_eq!(wide_to_string(&[0x41, 0xD800, 0x42]), "A\u{FFFD}B");
    assert_eq!(wide_to_string(&[0xDC00]), "\u{FFFD}");
    assert_eq!(wide_to_string(&[0xD83D, 0xDCBE]), "💾");
}

#[test]
fn errors_name_the_call_and_its_code() {
    let e = WinError::new("CreateFileW", 5);
    assert_eq!(e.describe(), "CreateFileW failed (os error 5)");
}

#[test]
fn battery_interface_guid_matches_batclass_h() {
    let g = Guid::from_u128(GUID_DEVICE_BATTERY);
    assert_eq!(g.data1, 0x72631e54);
    assert_eq!(g.data2, 0x78a4);
    assert_eq!(g.data3, 0x11d0);
    assert_eq!(g.data4, 0xbcf700aa00b7b32a);
}

#[test]
fn disk_interface_guid_has_its_fields() {
    let g = Guid::from_u128(GUID_DEVINTERFACE_DISK);
    assert_eq!(g.data1, 0x53f56307);
    assert_eq!(g.data2, 0xb6bf);
    assert_eq!(g.data3, 0x11d0);
    assert_eq!(g.data4, 0x94f200a0c91efb8b);
}

#[test]
fn battery_ioctl_codes_match_batclass_h() {
    assert_eq!(IOCTL_BATTERY_QUERY_TAG, 0x0029_4040);
    assert_eq!(IOCTL_BATTERY_QUERY_INFORMATION, 0x0029_4044);
    assert_eq!(IOCTL_BATTERY_QUERY_STATUS, 0x0029_404C);
}

#[test]
fn storage_ioctl_codes_match_winioctl_h() {
    assert_eq!(IOCTL_STORAGE_QUERY_PROPERTY, 0x002D_1400);
}

#[test]
fn smart_ioctl_codes_are_correct() {
    assert_eq!(IOCTL_ATA_PASS_THROUGH, 0x0004_D02C);
    assert_eq!(SMART_RCV_DRIVE_DATA, 0x0007_C088);
    assert_eq!(SMART_GET_VERSION, 0x0007_4080);
}

#[test]
fn ctl_code_packs_fields_in_the_documented_order() {
    assert_eq!(ctl_code(0x29, 0x10, 0, 1), (0x29 << 16) | (1 << 14) | (0x10 << 2));
}

#[test]
fn drives_have_numbered_device_paths() {
    assert_eq!(physical_drive_path(0), r"\\.\PhysicalDrive0");
    assert_eq!(physical_drive_path(12), r"\\.\PhysicalDrive12");
}

fn detail(path: &str) -> Vec<u8> {
    let mut bytes: Vec<u8> = vec![8, 0, 0, 0];
    for unit in path.encode_utf16() {
        bytes.extend_from_slice(&unit.to_le_bytes());
    }
    bytes.extend_from_slice(&[0, 0, 0x58, 0]);
    bytes
}

#[test]
fn interface_paths_keep_order_and_skip_empty_ones() {
    assert_eq!(detail_path(&detail(r"\\?\acpi#bat0")), r"\\?\acpi#bat0");
    assert_eq!(detail_path(&[1, 2]), "");
    let details = vec![Some(detail("first")), None, Some(detail("")), Some(detail("second"))];
    let paths = interface_paths(&details, ERROR_NO_MORE_ITEMS).unwrap();
    assert_eq!(paths, vec!["first".to_string(), "second".to_string()]);
}

#[test]
fn an_enumeration_that_breaks_off_is_an_error() {
    let e = interface_paths(&[Some(detail("first"))], 13).unwrap_err();
    assert_eq!(e.context, "SetupDiEnumDeviceInterfaces");
    assert_eq!(e.code, 13);
}

#[test]
fn registry_values_are_trimmed_text() {
    let mut data: Vec<u8> = Vec::new();
    for unit in " C:\\Program Files \0".encode_utf16() {
        data.extend_from_slice(&unit.to_le_bytes());
    }
    assert_eq!(read_hklm_string(&Some(data)), Some("C:\\Program Files".to_string()));
    assert_eq!(read_hklm_string(&Some(vec![0x20, 0, 0, 0])), None);
    assert_eq!(read_hklm_string(&Some(vec![0x41])), None);
}

#[test]
fn missing_key_is_none_not_a_panic() {
    assert!(read_hklm_string(&None).is_none());
}

#[test]
fn an_abandoned_pci_lock_is_still_acquired() {
    assert!(acquired(0).is_ok());
    assert!(acquired(0x80).is_ok());
    let e = acquired(0x102).unwrap_err();
    assert_eq!(e.code, 0x102);
    assert!(e.context.starts_with("PCI bus busy"));
}

#[test]
fn missing_value_under_a_real_key_is_none() {
    assert!(read_hklm_string(&None).is_none());
    assert!(read_hklm_string(&Some(Vec::new())).is_none());
}

#[test]
fn reads_a_value_windows_always_has() {
    let mut data: Vec<u8> = Vec::new();
    for unit in "C:\\Program Files\0".encode_utf16() {
        data.extend_from_slice(&unit.to_le_bytes());
    }
    let v = read_hklm_string(&Some(data));
    assert!(v.is_some(), "expected ProgramFilesDir to be readable");
    assert!(v.unwrap().contains(':'), "expected an absolute path");
}

/// A desktop legitimately has no battery; that is no error.
#[test]
fn enumerating_batteries_never_errors_on_this_machine() {
    let r = interface_paths(&[], ERROR_NO_MORE_ITEMS);
    assert!(r.is_ok(), "enumeration failed: {:?}", r.err());
}
