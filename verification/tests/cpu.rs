use pc_checker::probes::cpu::{
    base_clock_mhz, brand_string, count_core_records, detect_vendor, intel_base_clock_mhz, probe,
    CpuFacts, CpuVendor,
};

fn word(bytes: &[u8]) -> u32 {
    u32::from_le_bytes([bytes[0], bytes[1], bytes[2], bytes[3]])
}

fn registers(text: &str) -> Vec<u32> {
    let mut bytes: Vec<u8> = text.as_bytes().to_vec();
    bytes.resize(48, 0);
    bytes.chunks(4).map(word).collect()
}

fn two_records() -> Vec<u8> {
    let mut buf: Vec<u8> = vec![0u8; 32];
    buf[4..8].copy_from_slice(&16u32.to_le_bytes());
    buf[20..24].copy_from_slice(&16u32.to_le_bytes());
    buf
}

/// What an Intel part with two cores and four threads reports.
fn facts() -> CpuFacts {
    CpuFacts {
        max_leaf: 0x16,
        vendor_ebx: word(b"Genu"),
        vendor_edx: word(b"ineI"),
        vendor_ecx: word(b"ntel"),
        max_extended_leaf: 0x8000_0008,
        brand: registers("Intel(R) Core(TM) i5-7200U CPU @ 2.50GHz"),
        leaf16_eax: 2700,
        core_records: Some(two_records()),
        logical_processors: Some(4),
    }
}

#[test]
fn detects_a_real_x86_vendor_on_this_machine() {
    let f = facts();
    assert_ne!(detect_vendor(f.vendor_ebx, f.vendor_edx, f.vendor_ecx), CpuVendor::Other);
}

#[test]
fn vendors_are_told_apart_by_their_names() {
    assert_eq!(
        detect_vendor(word(b"Genu"), word(b"ineI"), word(b"ntel")),
        CpuVendor::Intel
    );
    assert_eq!(detect_vendor(word(b"Auth"), word(b"enti"), word(b"cAMD")), CpuVendor::Amd);
    assert_eq!(detect_vendor(word(b"Cyri"), word(b"xIns"), word(b"tead")), CpuVendor::Other);
}

#[test]
fn brand_string_is_readable_on_this_machine() {
    let f = facts();
    let s = brand_string(f.max_extended_leaf, &f.brand);
    assert!(s.is_some(), "brand string should be available on any modern x86_64 CPU");
    assert!(!s.unwrap().is_empty());
}

#[test]
fn brand_strings_lose_their_padding() {
    assert_eq!(
        brand_string(0x8000_0004, &registers("  AMD Ryzen 5 7500F 6-Core Processor   ")),
        Some("AMD Ryzen 5 7500F 6-Core Processor".to_string())
    );
    assert_eq!(brand_string(0x8000_0004, &registers("")), None);
    assert_eq!(brand_string(0x8000_0003, &registers("x")), None);
}

#[test]
fn logical_processor_count_is_plausible() {
    let n = probe(&facts()).logical_processors;
    assert!(n >= 1 && n <= 512, "got {n}");
}

#[test]
fn physical_core_count_is_plausible_and_not_more_than_logical() {
    let topo = probe(&facts());
    if let Some(&phys) = topo.physical_cores.get() {
        assert!(phys >= 1);
        assert!(
            phys <= topo.logical_processors,
            "physical cores ({phys}) exceeded logical processors ({})",
            topo.logical_processors
        );
    }
}

#[test]
fn count_core_records_stops_at_a_zero_size_record_rather_than_looping() {
    let buf = [0u8; 16];
    assert_eq!(count_core_records(&buf), 0);
}

#[test]
fn count_core_records_walks_two_fixed_size_records() {
    assert_eq!(count_core_records(&two_records()), 2);
}

#[test]
fn full_probe_does_not_panic_on_this_machine() {
    let topo = probe(&facts());
    assert!(topo.logical_processors >= 1);
}

#[test]
fn only_intel_parts_report_a_base_clock() {
    assert_eq!(intel_base_clock_mhz(0x16, 2700), Some(2700));
    assert_eq!(intel_base_clock_mhz(0x15, 2700), None);
    assert_eq!(intel_base_clock_mhz(0x16, 0), None);
    assert!(base_clock_mhz(CpuVendor::Intel, 0x16, 2700).is_ok());
    assert!(!base_clock_mhz(CpuVendor::Amd, 0x16, 2700).is_ok());
}

#[test]
fn the_topology_gathers_what_was_reported() {
    let topo = probe(&facts());
    assert_eq!(topo.vendor, CpuVendor::Intel);
    assert_eq!(
        topo.brand_string.get(),
        Some(&"Intel(R) Core(TM) i5-7200U CPU @ 2.50GHz".to_string())
    );
    assert_eq!(topo.physical_cores.get(), Some(&2));
    assert_eq!(topo.base_clock_mhz.get(), Some(&2700));

    let mut bare = facts();
    bare.core_records = None;
    bare.logical_processors = None;
    let topo = probe(&bare);
    assert!(!topo.physical_cores.is_ok());
    assert_eq!(topo.logical_processors, 1);
}
