use pc_checker::measure::Share;
use pc_checker::model::{Reading, Unavailable};
use pc_checker::probes::battery_history::{
    fit_degradation, fit_points, parse, probe, reading_from, CapacitySample, MAX_RATE,
};

fn entry(start: &str, end: &str, design: u64, full: u64, changed: u8) -> String {
    format!(
        r#"<HistoryEntry StartDate="{start}" EndDate="{end}" DesignCapacity="{design}" FullChargeCapacity="{full}" CycleCount="0" BatteryChanged="{changed}" />"#
    )
}

fn report(entries: &str) -> String {
    format!(
        r#"<?xml version="1.0"?>
<BatteryReport xmlns="http://schemas.microsoft.com/battery/2012">
  <History>{entries}</History>
</BatteryReport>"#
    )
}

fn percent(s: Share) -> f64 {
    s.part as f64 / s.whole as f64 * 100.0
}

#[test]
fn parses_capacity_history_from_attributes() {
    let xml = report(&format!(
        "{}{}",
        entry("2026-01-01T00:00:00Z", "2026-01-08T00:00:00Z", 50000, 47000, 0),
        entry("2026-02-01T00:00:00Z", "2026-02-08T00:00:00Z", 50000, 46000, 0),
    ));
    let h = parse(&xml).unwrap();
    assert_eq!(h.samples.len(), 2);
    assert!((percent(h.samples[0].health) - 94.0).abs() < 0.01);
    assert!((percent(h.samples[1].health) - 92.0).abs() < 0.01);
}

#[test]
fn zero_capacity_rows_are_not_data_points() {
    let xml = report(&entry("2024-08-05T01:33:49Z", "2024-08-12T00:00:00Z", 0, 0, 0));
    let h = parse(&xml).unwrap();
    assert!(h.samples.is_empty(), "zero rows must be skipped entirely");
    assert!(!h.degradation_micro_percent_per_year.is_ok());
}

#[test]
fn detects_a_battery_swap() {
    let xml = report(&format!(
        "{}{}",
        entry("2026-01-01T00:00:00Z", "2026-01-08T00:00:00Z", 50000, 40000, 0),
        entry("2026-02-01T00:00:00Z", "2026-02-08T00:00:00Z", 50000, 49500, 1),
    ));
    let h = parse(&xml).unwrap();
    assert!(h.battery_swap_detected, "BatteryChanged=1 must be surfaced");
}

#[test]
fn trend_ignores_history_before_a_swap() {
    let mut entries = String::new();
    entries.push_str(&entry("2026-01-01T00:00:00Z", "2026-01-08T00:00:00Z", 50000, 30000, 0));
    entries.push_str(&entry("2026-02-01T00:00:00Z", "2026-02-08T00:00:00Z", 50000, 50000, 1));
    entries.push_str(&entry("2026-03-01T00:00:00Z", "2026-03-08T00:00:00Z", 50000, 49500, 0));
    entries.push_str(&entry("2026-05-01T00:00:00Z", "2026-05-08T00:00:00Z", 50000, 49000, 0));

    let h = parse(&report(&entries)).unwrap();
    let slope = *h.degradation_micro_percent_per_year.get().unwrap() as f64 / 1e6;
    assert!(slope < 0.0, "post-swap trend should degrade, not show a jump: {slope}");
    assert!(slope > -20.0, "slope implausibly steep: {slope}");
}

#[test]
fn refuses_to_extrapolate_from_a_short_window() {
    let xml = report(&format!(
        "{}{}",
        entry("2026-01-01T00:00:00Z", "2026-01-08T00:00:00Z", 50000, 47000, 0),
        entry("2026-01-08T00:00:00Z", "2026-01-15T00:00:00Z", 50000, 46900, 0),
    ));
    let h = parse(&xml).unwrap();
    assert!(
        !h.degradation_micro_percent_per_year.is_ok(),
        "two weeks is not enough to state a per-year rate"
    );
}

#[test]
fn fits_a_realistic_degradation_rate() {
    let mut entries = String::new();
    for month in 0..12 {
        let full = 50_000 - (month * 417);
        entries.push_str(&entry(
            &format!("2026-{:02}-01T00:00:00Z", month + 1),
            &format!("2026-{:02}-08T00:00:00Z", month + 1),
            50_000,
            full as u64,
            0,
        ));
    }
    let h = parse(&report(&entries)).unwrap();
    let slope = *h.degradation_micro_percent_per_year.get().unwrap() as f64 / 1e6;
    assert!((slope + 10.0).abs() < 2.0, "expected about -10 %/year, got {slope}");
    assert!(h.observation_days >= 300, "got {}", h.observation_days);
}

#[test]
fn battery_history_malformed_xml_returns_none_not_panic() {
    assert!(parse("not xml at all").is_none());
    assert!(parse("").is_none());
}

fn percent_share(percent: u64) -> Share {
    Share { part: percent, whole: 100 }
}

#[test]
fn a_straight_line_is_fitted_exactly() {
    let year: i64 = 31_557_600;
    let points: Vec<(i64, Share)> = vec![
        (0, percent_share(100)),
        (year / 2, percent_share(95)),
        (year, percent_share(90)),
    ];
    assert_eq!(fit_points(&points), (Some(-10_000_000), 365));
    // The moment that times are counted from does not matter.
    let moved: Vec<(i64, Share)> = points.iter().map(|p| (p.0 - 3 * year, p.1)).collect();
    assert_eq!(fit_points(&moved), (Some(-10_000_000), 365));
    assert_eq!(fit_points(&[]), (None, 0));
    assert_eq!(fit_points(&points[..1]), (None, 0));
}

#[test]
fn no_capacity_and_no_date_is_too_large_for_a_rate() {
    let huge = Share { part: u64::MAX, whole: 1 };
    let none = Share { part: 1, whole: u64::MAX };
    let month: i64 = 28 * 86_400;
    let rate = 1_844_674_407_370_955_161_500_000_000i128 * 31_557_600 / month as i128;
    let (fitted, days) = fit_points(&[(0, none), (month, huge)]);
    assert_eq!(days, 28);
    assert!((fitted.unwrap() - rate).abs() <= 1);
    let (fitted, _) = fit_points(&[(0, huge), (month, none)]);
    assert!((fitted.unwrap() + rate).abs() <= 1);
    assert!(fitted.unwrap().unsigned_abs() <= MAX_RATE);
    assert_eq!(fit_points(&[(i64::MIN, huge), (i64::MAX, huge)]), (Some(0), u32::MAX));

    let xml = report(&format!(
        "{}{}",
        entry("0001-01-01T00:00:00Z", "0001-01-08T00:00:00Z", 1, u64::MAX, 0),
        entry("9999-12-31T00:00:00Z", "9999-12-31T00:00:00Z", u64::MAX, 1, 0),
    ));
    let h = parse(&xml).unwrap();
    assert!(*h.degradation_micro_percent_per_year.get().unwrap() < 0);
}

fn sample(start: &str, full: u64, changed: bool) -> CapacitySample {
    CapacitySample {
        period_start: start.to_string(),
        period_end: start.to_string(),
        design_capacity_mwh: 50000,
        full_charge_capacity_mwh: full,
        health: Share { part: full, whole: 50000 },
        cycle_count: None,
        battery_changed: changed,
    }
}

#[test]
fn samples_before_the_last_swap_are_not_fitted() {
    // A hundred days apart, but of two packs.
    let two = vec![
        sample("1970-01-01T00:00:00Z", 30000, false),
        sample("1970-04-11T00:00:00Z", 50000, true),
    ];
    assert_eq!(fit_degradation(&two), (None, 0));
    assert_eq!(fit_degradation(&two), fit_degradation(&two[1..]));

    let many = vec![
        sample("2024-01-01T00:00:00Z", 30000, false),
        sample("2024-06-01T00:00:00Z", 50000, true),
        sample("2024-09-01T00:00:00Z", 48000, false),
        sample("2025-01-01T00:00:00Z", 50000, true),
        sample("2025-07-01T00:00:00Z", 49000, false),
    ];
    let (rate, days) = fit_degradation(&many);
    assert_eq!((rate, days), fit_degradation(&many[3..]));
    assert_eq!(days, 181);
    assert!(rate.unwrap() < 0);
    // Without a swap every sample counts.
    assert_eq!(fit_degradation(&many[..1]), (None, 0));
    let steady = vec![sample("2025-01-01T00:00:00Z", 50000, false), many[4].clone()];
    assert_eq!(fit_degradation(&steady), (rate, days));
}

#[test]
fn a_cycle_count_that_no_counter_holds_is_unknown() {
    let cycles = |n: &str| {
        let xml = report(&format!(
            r#"<HistoryEntry StartDate="a" EndDate="b" DesignCapacity="50000" FullChargeCapacity="47000" CycleCount="{n}" BatteryChanged="0" />"#
        ));
        parse(&xml).unwrap().samples[0].cycle_count
    };
    assert_eq!(cycles("0"), None);
    assert_eq!(cycles("1"), Some(1));
    assert_eq!(cycles("4294967295"), Some(u32::MAX));
    assert_eq!(cycles("4294967296"), None);
    assert_eq!(cycles("4294967297"), None);
}

#[test]
fn a_swap_without_capacity_ends_the_old_pack() {
    let old = format!(
        "{}{}",
        entry("2024-01-01T00:00:00Z", "2024-01-08T00:00:00Z", 50000, 30000, 0),
        entry("2024-06-01T00:00:00Z", "2024-06-08T00:00:00Z", 50000, 29000, 0),
    );
    let swap = entry("2025-01-01T00:00:00Z", "2025-01-08T00:00:00Z", 0, 0, 1);
    let one = entry("2025-02-01T00:00:00Z", "2025-02-08T00:00:00Z", 50000, 50000, 0);
    let two = entry("2025-08-01T00:00:00Z", "2025-08-08T00:00:00Z", 50000, 49000, 0);

    let h = parse(&report(&format!("{old}{swap}{one}"))).unwrap();
    assert!(h.battery_swap_detected);
    assert_eq!(h.samples.len(), 3);
    assert_eq!(h.observation_days, 0);
    assert!(!h.degradation_micro_percent_per_year.is_ok());

    let both = parse(&report(&format!("{old}{swap}{one}{two}"))).unwrap();
    let alone = parse(&report(&format!("{one}{two}"))).unwrap();
    assert_eq!(both.samples.len(), 4);
    assert_eq!(both.observation_days, alone.observation_days);
    assert_eq!(
        both.degradation_micro_percent_per_year.get(),
        alone.degradation_micro_percent_per_year.get()
    );
    assert!(*alone.degradation_micro_percent_per_year.get().unwrap() < 0);

    // Nothing has been seen of the new pack yet.
    let h = parse(&report(&format!("{old}{swap}"))).unwrap();
    assert_eq!(h.samples.len(), 2);
    assert_eq!(h.observation_days, 0);
    assert!(!h.degradation_micro_percent_per_year.is_ok());
}

#[test]
fn samples_keep_their_dates_and_cycles() {
    let xml = report(
        r#"<HistoryEntry StartDate="2026-01-01T00:00:00Z" EndDate="2026-01-08T00:00:00Z" DesignCapacity="50000" FullChargeCapacity="47000" CycleCount="12" BatteryChanged="0" />"#,
    );
    let h = parse(&xml).unwrap();
    let s = &h.samples[0];
    assert_eq!(s.period_start, "2026-01-01T00:00:00Z");
    assert_eq!(s.period_end, "2026-01-08T00:00:00Z");
    assert_eq!(s.cycle_count, Some(12));
    assert!(!s.battery_changed);
    assert_eq!(h.health_first.get(), Some(&Share { part: 47000, whole: 50000 }));
    assert_eq!(h.health_last.get(), Some(&Share { part: 47000, whole: 50000 }));
}

#[test]
fn an_unreadable_report_says_so() {
    match reading_from(None) {
        Reading::Missing { .. } => {}
        Reading::Value { .. } => panic!("expected missing"),
    }
    match probe(Err("powercfg exited with 1".to_string())) {
        Reading::Missing { reason, .. } => {
            assert_eq!(reason, Unavailable::QueryFailed("powercfg exited with 1".to_string()))
        }
        Reading::Value { .. } => panic!("expected missing"),
    }
    let xml = report(&entry("2026-01-01T00:00:00Z", "2026-01-08T00:00:00Z", 50000, 47000, 0));
    assert!(probe(Ok(xml)).is_ok());
}
