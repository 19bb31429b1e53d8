use pc_checker::measure::Celsius;
use pc_checker::pawnio::amd_msr::{
    decode_power_units, read_word, tctl_offset_celsius, tctl_offset_of_normalized,
    zen_temperature_celsius, ZEN_CUR_TEMP_RANGE_SEL_MASK, ZEN_CUR_TEMP_SHIFT,
    ZEN_CUR_TEMP_TJ_SEL_MASK, ZEN_REPORTED_TEMP_CTRL_BASE,
};
use pc_checker::pawnio::ffi::{candidate_paths, hr_result, version_parts, PAWNIO_DLL};
use pc_checker::pawnio::intel_msr::{
    clear_thermal_log, decode_power_limits, decode_rapl_units, decode_thermal_status, decode_tjmax,
    effective_clock_mhz, energy_count, RaplUnits,
};
use pc_checker::pawnio::{status, PawnIoStatus};
use pc_checker::win::WinError;

fn unit(exponent: u8) -> f64 {
    1.0 / (1u64 << exponent) as f64
}

fn celsius(t: Celsius) -> f64 {
    t.eighths as f64 * 0.125
}

fn degrees(c: f64) -> Celsius {
    Celsius { eighths: (c * 8.0) as i32 }
}

fn raw_for(celsius: f64) -> u32 {
    ((celsius / 0.125) as u32) << ZEN_CUR_TEMP_SHIFT
}

#[test]
fn power_units_decode_the_shared_amd_intel_encoding() {
    let synth: u64 = 3u64 | (16u64 << 8);
    let u = decode_power_units(synth);
    assert!((unit(u.watt_exponent) - 0.125).abs() < 1e-9);
    assert!((unit(u.joule_exponent) - 1.0 / 65536.0).abs() < 1e-12);
}

#[test]
fn decodes_the_default_range_at_eighth_degree_resolution() {
    let zero = degrees(0.0);
    assert!((celsius(zen_temperature_celsius(raw_for(45.0), zero)) - 45.0).abs() < 1e-9);
    assert!((celsius(zen_temperature_celsius(raw_for(88.625), zero)) - 88.625).abs() < 1e-9);
}

#[test]
fn range_select_bit_shifts_the_scale_down_by_49() {
    let raw = raw_for(94.0) | ZEN_CUR_TEMP_RANGE_SEL_MASK;
    assert!((celsius(zen_temperature_celsius(raw, degrees(0.0))) - 45.0).abs() < 1e-9);
}

#[test]
fn both_tj_sel_bits_set_also_selects_the_offset_range() {
    let raw = raw_for(94.0) | ZEN_CUR_TEMP_TJ_SEL_MASK;
    assert!((celsius(zen_temperature_celsius(raw, degrees(0.0))) - 45.0).abs() < 1e-9);

    let partial = raw_for(94.0) | (1 << 16);
    assert!((celsius(zen_temperature_celsius(partial, degrees(0.0))) - 94.0).abs() < 1e-9);
}

#[test]
fn tctl_offset_is_subtracted_so_biased_parts_report_true_tdie() {
    assert!((celsius(zen_temperature_celsius(raw_for(65.0), degrees(20.0))) - 45.0).abs() < 1e-9);
}

#[test]
fn tctl_offsets_match_only_the_affected_parts() {
    assert_eq!(celsius(tctl_offset_celsius("AMD Ryzen 7 1800X Eight-Core Processor")), 20.0);
    assert_eq!(celsius(tctl_offset_celsius("AMD Ryzen 7 2700X Eight-Core Processor")), 10.0);
    assert_eq!(
        celsius(tctl_offset_celsius("AMD Ryzen Threadripper 1950X 16-Core Processor")),
        27.0
    );
    assert_eq!(celsius(tctl_offset_celsius("AMD Ryzen 7 1700 Eight-Core Processor")), 0.0);
    assert_eq!(celsius(tctl_offset_celsius("AMD Ryzen 5 7500F 6-Core Processor")), 0.0);
}

#[test]
fn normalized_brands_are_matched_in_lower_case() {
    assert_eq!(celsius(tctl_offset_of_normalized("amd ryzen 5 1600x")), 20.0);
    assert_eq!(celsius(tctl_offset_of_normalized("amd ryzen threadripper 2990wx")), 27.0);
    assert_eq!(celsius(tctl_offset_of_normalized("AMD Ryzen 5 1600X")), 0.0);
}

#[test]
fn the_temperature_register_address_matches_the_kernel_driver() {
    assert_eq!(ZEN_REPORTED_TEMP_CTRL_BASE, 0x0005_9800);
}

#[test]
fn temperatures_round_to_the_nearest_degree() {
    assert_eq!(degrees(45.5).round(), 46);
    assert_eq!(degrees(45.375).round(), 45);
    assert_eq!(degrees(-3.5).round(), -4);
    assert_eq!(degrees(-3.375).round(), -3);
}

#[test]
fn a_read_that_wrote_nothing_is_an_error() {
    assert_eq!(read_word(1, 77, "ioctl_read_msr returned no data").unwrap(), 77);
    let e = read_word(0, 77, "ioctl_read_msr returned no data").unwrap_err();
    assert_eq!(e.context, "ioctl_read_msr returned no data");
}

#[test]
fn status_always_explains_itself_either_way() {
    for s in [
        status(Err(WinError::new("LoadLibraryW", 126))),
        status(Ok(Err(WinError::new("pawnio_version", 2)))),
        status(Ok(Ok((2, 0, 1)))),
    ] {
        match s {
            PawnIoStatus::NotInstalled { detail } => {
                assert!(!detail.is_empty(), "detail must explain why PawnIO looks absent");
            }
            PawnIoStatus::Installed { version } => {
                assert!(!version.is_empty(), "an installed PawnIO must report a version");
            }
        }
    }
}

#[test]
fn the_status_carries_the_error_or_the_version() {
    match status(Err(WinError::new("LoadLibraryW", 126))) {
        PawnIoStatus::NotInstalled { detail } => {
            assert_eq!(detail, "PawnIOLib.dll: LoadLibraryW failed (os error 126)")
        }
        _ => panic!("a library that does not load is not installed"),
    }
    match status(Ok(Err(WinError::new("pawnio_version", 2)))) {
        PawnIoStatus::NotInstalled { detail } => assert_eq!(
            detail,
            "PawnIOLib.dll loaded but pawnio_version failed: pawnio_version failed (os error 2)"
        ),
        _ => panic!("a library that does not answer is not installed"),
    }
    match status(Ok(Ok((2, 0, 1)))) {
        PawnIoStatus::Installed { version } => assert_eq!(version, "2.0.1"),
        _ => panic!("a library that answers is installed"),
    }
}

#[test]
fn candidate_paths_are_absolute_and_named_for_the_library() {
    let paths = candidate_paths(
        &Some("D:\\Tools\\PawnIO\\\\".to_string()),
        &Some("C:\\Program Files\\".to_string()),
    );
    assert_eq!(
        paths,
        vec!["D:\\Tools\\PawnIO\\PawnIOLib.dll", "C:\\Program Files\\PawnIO\\PawnIOLib.dll"]
    );
    for p in paths {
        assert!(p.contains(':'), "candidate must be an absolute path: {p}");
        assert!(p.ends_with(PAWNIO_DLL), "candidate must point at the DLL: {p}");
    }
}

#[test]
fn one_path_is_not_tried_twice() {
    let paths = candidate_paths(
        &Some("C:\\Program Files\\PawnIO".to_string()),
        &Some("C:\\Program Files".to_string()),
    );
    assert_eq!(paths, vec!["C:\\Program Files\\PawnIO\\PawnIOLib.dll"]);
    assert!(candidate_paths(&None, &None).is_empty());
}

#[test]
fn versions_and_failures_are_unpacked() {
    assert_eq!(version_parts(0x0002_0103), (2, 1, 3));
    assert!(hr_result(0, "pawnio_open").is_ok());
    assert!(hr_result(1, "pawnio_open").is_ok());
    assert_eq!(hr_result(0x8007_0005u32 as i32, "pawnio_open").unwrap_err().code, 5);
    assert_eq!(hr_result(0xC000_0022u32 as i32, "x").unwrap_err().code, 0xC000_0022);
}

#[test]
fn rapl_units_decode_the_common_intel_encoding() {
    let synth: u64 = (3u64) | (16u64 << 8) | (10u64 << 16);
    let u = decode_rapl_units(synth);
    assert!((unit(u.watt_exponent) - 0.125).abs() < 1e-9);
    assert!((unit(u.joule_exponent) - 1.0 / 65536.0).abs() < 1e-12);
    assert!((unit(u.second_exponent) - 1.0 / 1024.0).abs() < 1e-9);
}

#[test]
fn power_limits_decode_wattage_from_raw_units() {
    let units = RaplUnits { watt_exponent: 3, joule_exponent: 0, second_exponent: 0 };
    let raw: u64 = 200u64 | (1u64 << 15) | (400u64 << 32) | (1u64 << 47);
    let limits = decode_power_limits(raw, &units);
    assert!((limits.pl1.microwatts as f64 / 1e6 - 25.0).abs() < 1e-9);
    assert!(limits.pl1_enabled);
    assert!((limits.pl2.microwatts as f64 / 1e6 - 50.0).abs() < 1e-9);
    assert!(limits.pl2_enabled);
}

#[test]
fn power_limit_disabled_bit_is_read_correctly() {
    let units = RaplUnits { watt_exponent: 0, joule_exponent: 0, second_exponent: 0 };
    let raw: u64 = 100u64;
    let limits = decode_power_limits(raw, &units);
    assert!(!limits.pl1_enabled);
}

#[test]
fn tjmax_reads_the_correct_byte() {
    let raw: u64 = 100u64 << 16;
    assert_eq!(decode_tjmax(raw), 100);
}

#[test]
fn thermal_status_decodes_live_and_sticky_bits_independently() {
    let tjmax: u8 = 100u8;
    let idle = decode_thermal_status(20u64 << 16, tjmax);
    assert!(!idle.throttling_now);
    assert!(!idle.throttled_since_clear);
    assert_eq!(idle.temperature_celsius, 80);

    let hot = decode_thermal_status(0b11 | (2u64 << 16), tjmax);
    assert!(hot.throttling_now);
    assert!(hot.throttled_since_clear);
    assert_eq!(hot.temperature_celsius, 98);

    let recovered = decode_thermal_status(0b10 | (30u64 << 16), tjmax);
    assert!(!recovered.throttling_now);
    assert!(recovered.throttled_since_clear);
}

#[test]
fn clearing_the_log_keeps_the_live_bit() {
    let cleared = clear_thermal_log(0b11 | (2u64 << 16));
    let s = decode_thermal_status(cleared, 100);
    assert!(s.throttling_now);
    assert!(!s.throttled_since_clear);
    assert_eq!(s.temperature_celsius, 98);
}

#[test]
fn energy_counters_are_32_bits_wide() {
    assert_eq!(energy_count(0xABCD_0000_1234_5678), 0x1234_5678);
}

#[test]
fn effective_clock_matches_base_when_fully_active() {
    let mhz = effective_clock_mhz(1_000_000, 1_000_000, 2_500).hertz as f64 / 1e6;
    assert!((mhz - 2_500.0).abs() < 0.01);
}

#[test]
fn effective_clock_reflects_partial_c_state_residency() {
    let mhz = effective_clock_mhz(500_000, 1_000_000, 2_500).hertz as f64 / 1e6;
    assert!((mhz - 1_250.0).abs() < 0.01);
}

#[test]
fn zero_mperf_delta_does_not_divide_by_zero() {
    assert_eq!(effective_clock_mhz(0, 0, 2_500).hertz, 0);
}
