use pc_checker::probes::gpu::{
    driver_entry, driver_key, find_hardware, parse_matching_device_id, probe,
    read_display_drivers, vendor_name, AdapterFacts, DisplayInstance, ADAPTER_FLAG_SOFTWARE,
    MAX_DISPLAY_INSTANCES,
};
use pc_checker::scan::stress_target;
use pc_checker::win::WinError;

fn adapter(name: &str, vendor_id: u32, device_id: u32, vram: u64, flags: u32) -> AdapterFacts {
    AdapterFacts {
        description: name.encode_utf16().collect(),
        vendor_id,
        device_id,
        subsystem_id: 0x1234,
        revision: 1,
        dedicated_video_memory: vram,
        shared_system_memory: 8 << 30,
        flags,
        has_output: true,
    }
}

fn adapters() -> Vec<AdapterFacts> {
    vec![
        adapter("Microsoft Basic Render Driver", 0x1414, 0x8C, 0, ADAPTER_FLAG_SOFTWARE),
        adapter(" AMD Radeon RX 6700 XT\0junk", 0x1002, 0x73DF, 12 << 30, 0),
    ]
}

#[test]
fn vendor_ids_map_to_names() {
    assert_eq!(vendor_name(0x10DE), "NVIDIA");
    assert_eq!(vendor_name(0x1002), "AMD");
    assert_eq!(vendor_name(0x8086), "Intel");
    assert_eq!(vendor_name(0x1414), "Microsoft");
}

#[test]
fn parses_matching_device_id() {
    assert_eq!(parse_matching_device_id(r"pci\ven_1002&dev_73df"), Some((0x1002, 0x73DF)));
    assert_eq!(
        parse_matching_device_id(r"PCI\VEN_10DE&DEV_2484&SUBSYS_38851043"),
        Some((0x10DE, 0x2484))
    );
    assert_eq!(parse_matching_device_id("not a device id"), None);
}

#[test]
fn enumerates_at_least_one_adapter_on_this_machine() {
    let gpus = probe(&adapters(), &[]);
    assert!(!gpus.is_empty(), "no display adapters enumerated");
}

#[test]
fn dedicated_vram_is_not_truncated_to_32_bits() {
    let gpus = probe(&adapters(), &[]);
    for g in gpus.iter().filter(|g| !g.is_software) {
        assert_ne!(
            g.dedicated_vram_bytes, 4_293_918_720,
            "{} reported the classic 32-bit truncated VRAM value",
            g.name
        );
    }
    assert_eq!(gpus[1].dedicated_vram_bytes, 12 << 30);
}

#[test]
fn adapters_get_the_driver_that_the_registry_records() {
    let other = driver_entry(
        Some(r"pci\ven_10de&dev_2484".to_string()),
        Some("1.0".to_string()),
        None,
    )
    .unwrap();
    let amd = driver_entry(
        Some(r"PCI\VEN_1002&DEV_73DF&REV_C1".to_string()),
        Some("31.0.24002.92".to_string()),
        Some("11-2-2023".to_string()),
    )
    .unwrap();
    assert!(driver_entry(None, None, None).is_none());
    let gpus = probe(&adapters(), &[other, amd]);
    assert_eq!(gpus[1].name, "AMD Radeon RX 6700 XT");
    assert_eq!(gpus[1].vendor, "AMD");
    assert_eq!(gpus[1].driver_version.get(), Some(&"31.0.24002.92".to_string()));
    assert_eq!(gpus[1].driver_date.get(), Some(&"11-2-2023".to_string()));
    assert!(!gpus[0].driver_version.is_ok());
    assert!(gpus[0].is_software);
}

fn wide_bytes(s: &str) -> Option<Vec<u8>> {
    Some(s.encode_utf16().flat_map(|u| u.to_le_bytes()).collect())
}

fn instance(matching: Option<Vec<u8>>, version: &str) -> DisplayInstance {
    DisplayInstance::Open { matching, version: wide_bytes(version), date: None }
}

#[test]
fn drivers_are_read_up_to_the_first_absent_instance() {
    let instances = vec![
        instance(wide_bytes("pci\\ven_1002&dev_73df\0"), "31.0.24002.92\0"),
        DisplayInstance::Closed,
        instance(None, "2.0"),
        instance(wide_bytes("root\\basicdisplay"), "3.0"),
        instance(wide_bytes("PCI\\VEN_10DE&DEV_2484"), " "),
        DisplayInstance::Absent,
        instance(wide_bytes("pci\\ven_8086&dev_9bc4"), "4.0"),
    ];
    let drivers = read_display_drivers(&instances);
    assert_eq!(drivers.len(), 2);
    assert_eq!((drivers[0].vendor_id, drivers[0].device_id), (0x1002, 0x73DF));
    assert_eq!(drivers[0].version, Some("31.0.24002.92".to_string()));
    assert_eq!(drivers[0].date, None);
    assert_eq!((drivers[1].vendor_id, drivers[1].device_id), (0x10DE, 0x2484));
    assert_eq!(drivers[1].version, None);
    assert!(read_display_drivers(&[]).is_empty());
    let many: Vec<DisplayInstance> =
        (0..70).map(|_| instance(wide_bytes("pci\\ven_1002&dev_73df"), "1.0")).collect();
    assert_eq!(read_display_drivers(&many).len(), MAX_DISPLAY_INSTANCES);
}

#[test]
fn registry_keys_name_the_instance() {
    let instance: Vec<u16> = "0000\0".encode_utf16().collect();
    assert_eq!(
        driver_key(&instance),
        r"SYSTEM\CurrentControlSet\Control\Class\{4d36e968-e325-11ce-bfc1-08002be10318}\0000"
    );
}

#[test]
fn a_stress_run_is_for_the_first_hardware_adapter() {
    let gpus = probe(&adapters(), &[]);
    assert_eq!(find_hardware(&gpus), Some(1));
    assert_eq!(stress_target(&Ok(gpus)), Ok(1));
    let software = probe(&adapters()[..1], &[]);
    assert_eq!(
        stress_target(&Ok(software)),
        Err("no hardware display adapter was found".to_string())
    );
    assert_eq!(
        stress_target(&Err(WinError::new("CreateDXGIFactory1", 7))),
        Err("CreateDXGIFactory1 failed (os error 7)".to_string())
    );
}
