use pc_checker::measure::Share;
use pc_checker::model::{Reading, Unavailable};
use pc_checker::probes::battery::{
    decode_chemistry, information_query, probe, probe_one, query_cycle_count, query_estimated_time,
    query_manufacture_date, query_string, query_temperature, sane_capacity, status_query,
    BatteryInformationRaw, BatteryReplies, PowerState, BATTERY_CHARGING, BATTERY_CRITICAL,
    BATTERY_DISCHARGING, BATTERY_POWER_ON_LINE, BATTERY_UNKNOWN, INFORMATION_SIZE,
    MANUFACTURE_DATE_SIZE, QUERY_INFORMATION_SIZE, STATUS_SIZE, WAIT_STATUS_SIZE,
};
use pc_checker::win::WinError;

#[test]
fn chemistry_codes_map_to_friendly_names() {
    assert_eq!(decode_chemistry(b"LION"), "Lithium Ion");
    assert_eq!(decode_chemistry(b"LiP\0"), "Lithium Polymer");
    assert_eq!(decode_chemistry(b"NiMH"), "Nickel Metal Hydride");
    assert_eq!(decode_chemistry(b"ZZZZ"), "ZZZZ");
}

#[test]
fn zero_cycle_count_is_unknown_not_zero() {
    let info = BatteryInformationRaw { cycle_count: 0, ..Default::default() };
    let r = query_cycle_count(Some(info));
    assert!(!r.is_ok(), "a 0 cycle count must not be reported as a value");
}

#[test]
fn real_cycle_count_passes_through() {
    let info = BatteryInformationRaw { cycle_count: 412, ..Default::default() };
    assert_eq!(query_cycle_count(Some(info)).get(), Some(&412));
}

#[test]
fn unknown_sentinels_are_rejected() {
    assert_eq!(sane_capacity(BATTERY_UNKNOWN), None);
    assert_eq!(sane_capacity(0), None);
    assert_eq!(sane_capacity(24420), Some(24420));
}

#[test]
fn power_state_bits_prioritise_critical() {
    assert_eq!(
        PowerState::from_bits(BATTERY_CRITICAL | BATTERY_DISCHARGING),
        PowerState::Critical
    );
    assert_eq!(PowerState::from_bits(BATTERY_DISCHARGING), PowerState::Discharging);
    assert_eq!(PowerState::from_bits(BATTERY_CHARGING), PowerState::Charging);
    assert_eq!(PowerState::from_bits(BATTERY_POWER_ON_LINE), PowerState::OnLineNotCharging);
}

#[test]
fn battery_struct_layouts_match_the_kernel_abi() {
    assert_eq!(INFORMATION_SIZE, 40);
    assert_eq!(STATUS_SIZE, 16);
    assert_eq!(QUERY_INFORMATION_SIZE, 12);
    assert_eq!(MANUFACTURE_DATE_SIZE, 4);
    assert_eq!(WAIT_STATUS_SIZE, 20);
}

fn information(designed: u32, full: u32, cycles: u32) -> Vec<u8> {
    let mut b: Vec<u8> = vec![0u8; INFORMATION_SIZE];
    b[0..4].copy_from_slice(&0x8000_0000u32.to_le_bytes());
    b[8..12].copy_from_slice(b"LION");
    b[12..16].copy_from_slice(&designed.to_le_bytes());
    b[16..20].copy_from_slice(&full.to_le_bytes());
    b[32..36].copy_from_slice(&cycles.to_le_bytes());
    b
}

fn status(power: u32, capacity: u32, voltage: u32, rate: i32) -> Vec<u8> {
    let mut b: Vec<u8> = Vec::new();
    b.extend_from_slice(&power.to_le_bytes());
    b.extend_from_slice(&capacity.to_le_bytes());
    b.extend_from_slice(&voltage.to_le_bytes());
    b.extend_from_slice(&rate.to_le_bytes());
    b
}

fn wide(text: &str) -> Vec<u8> {
    let mut b: Vec<u8> = Vec::new();
    for unit in text.encode_utf16() {
        b.extend_from_slice(&unit.to_le_bytes());
    }
    b.extend_from_slice(&[0, 0]);
    b
}

fn replies() -> BatteryReplies {
    BatteryReplies {
        information: Some(information(24420, 24198, 37)),
        status: Some(status(BATTERY_DISCHARGING, 12099, 11_400, -6000)),
        device_name: Some(wide("MS-N014")),
        manufacturer: Some(wide("MSI Corp.")),
        serial_number: None,
        unique_id: Some(wide("")),
        manufacture_date: Some(vec![9, 4, 0xE1, 0x07]),
        temperature: Some(3081u32.to_le_bytes().to_vec()),
        estimated_time: Some(5400u32.to_le_bytes().to_vec()),
    }
}

/// MSI MS-N014, 24198 mWh full charge against 24420 mWh design: ~99.1%, not 100%.
#[test]
fn health_matches_the_reference_screenshot() {
    let r = probe_one(&replies());
    let share = *r.health.get().unwrap();
    assert_eq!(share, Share { part: 24198, whole: 24420 });
    let health = (share.part as f64 / share.whole as f64) * 100.0;
    assert!((health - 99.09).abs() < 0.05, "got {health}");
}

#[test]
fn a_report_decodes_every_reply() {
    let r = probe_one(&replies());
    assert_eq!(r.device_name.get(), Some(&"MS-N014".to_string()));
    assert_eq!(r.manufacturer.get(), Some(&"MSI Corp.".to_string()));
    assert!(!r.serial_number.is_ok());
    assert!(!r.unique_id.is_ok());
    assert_eq!(r.manufacture_date.get(), Some(&"2017-04-09".to_string()));
    assert_eq!(r.chemistry.get(), Some(&"Lithium Ion".to_string()));
    assert_eq!(r.power_state.get(), Some(&PowerState::Discharging));
    assert_eq!(r.current_capacity_share.get(), Some(&Share { part: 12099, whole: 24198 }));
    assert_eq!(r.current_capacity_mwh.get(), Some(&12099));
    assert_eq!(r.voltage_mv.get(), Some(&11_400));
    assert_eq!(r.charge_rate_mw.get(), Some(&-6000));
    assert_eq!(r.temperature_centi_c.get(), Some(&3495));
    assert_eq!(r.full_charged_capacity_mwh.get(), Some(&24198));
    assert_eq!(r.designed_capacity_mwh.get(), Some(&24420));
    assert_eq!(r.cycle_count.get(), Some(&37));
    assert_eq!(r.estimated_runtime_s.get(), Some(&5400));
    assert_eq!(r.full_runtime_s.get(), Some(&14518));
    assert!(!r.capacity_is_relative);
    assert!(r.is_system_battery);
}

#[test]
fn a_pack_that_answers_nothing_is_all_missing() {
    let r = probe_one(&BatteryReplies {
        information: None,
        status: None,
        device_name: None,
        manufacturer: None,
        serial_number: None,
        unique_id: None,
        manufacture_date: None,
        temperature: None,
        estimated_time: None,
    });
    assert!(!r.health.is_ok());
    assert!(!r.current_capacity_mwh.is_ok());
    assert!(!r.power_state.is_ok());
    assert!(!r.is_system_battery);
}

#[test]
fn implausible_temperatures_are_rejected() {
    match query_temperature(&Some(20_000u32.to_le_bytes().to_vec())) {
        Reading::Missing { reason, .. } => {
            assert!(matches!(reason, Unavailable::ImplausibleValue(_)))
        }
        Reading::Value { .. } => panic!("1727 C is no battery temperature"),
    }
    assert!(!query_temperature(&None).is_ok());
}

#[test]
fn unknown_estimates_and_dates_are_missing() {
    assert!(!query_estimated_time(&Some(BATTERY_UNKNOWN.to_le_bytes().to_vec())).is_ok());
    assert!(!query_manufacture_date(&Some(vec![0, 0, 0, 0])).is_ok());
    assert!(!query_string(&Some(wide(""))).is_ok());
    assert_eq!(query_string(&Some(wide("abc"))).get(), Some(&"abc".to_string()));
}

#[test]
fn queries_carry_tag_and_level() {
    let q = information_query(7, 4);
    assert_eq!(q.len(), QUERY_INFORMATION_SIZE);
    assert_eq!(&q[..8], &[7, 0, 0, 0, 4, 0, 0, 0]);
    let s = status_query(9);
    assert_eq!(s.len(), WAIT_STATUS_SIZE);
    assert_eq!(&s[..4], &[9, 0, 0, 0]);
}

#[test]
fn unreadable_packs_are_passed_over() {
    let good = probe_one(&replies());
    let packs = probe(Ok(vec![Err(WinError::new("tag", 2)), Ok(good)])).unwrap();
    assert_eq!(packs.len(), 1);
    let e = probe(Err(WinError::new("SetupDiGetClassDevsW", 13))).unwrap_err();
    assert_eq!(e.code, 13);
}

#[test]
fn a_reply_without_the_trailing_padding_is_read_in_full() {
    let mut r = replies();
    r.information = Some(information(24420, 24198, 37)[..36].to_vec());
    let full = probe_one(&r);
    assert_eq!(full.cycle_count.get(), Some(&37));
    assert_eq!(full.designed_capacity_mwh.get(), Some(&24420));
    r.information = Some(information(24420, 24198, 37)[..35].to_vec());
    assert!(!probe_one(&r).cycle_count.is_ok());
}
