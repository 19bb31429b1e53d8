use pc_checker::clock::Timestamp;
use pc_checker::model::{Reading, Unavailable};
use pc_checker::probes::crashes::{
    build_query, level_name, parse_event_xml, probe, query_failure, scan_minidumps, CrashEvent,
    DumpFile, EventCollector, MAX_EVENTS,
};
use pc_checker::win::WinError;

const SAMPLE: &str = r#"<Event xmlns='http://schemas.microsoft.com/win/2004/08/events/event'><System><Provider Name='Microsoft-Windows-WHEA-Logger' Guid='{c26c4f3c-3f66-4e99-8f8a-39405cfed220}'/><EventID>17</EventID><Version>0</Version><Level>3</Level><Task>0</Task><Opcode>0</Opcode><Keywords>0x8000000000000000</Keywords><TimeCreated SystemTime='2026-03-14T09:21:44.1234567Z'/><EventRecordID>5512</EventRecordID><Channel>System</Channel><Computer>DESKTOP-A4CG2OG</Computer></System></Event>"#;

#[test]
fn parses_a_whea_event() {
    let e = parse_event_xml(SAMPLE).expect("should parse");
    assert_eq!(e.event_id, 17);
    assert_eq!(e.timestamp, "2026-03-14T09:21:44.1234567Z");
    assert_eq!(e.source, "Microsoft-Windows-WHEA-Logger");
    assert_eq!(e.level, "Warning");
}

#[test]
fn maps_numeric_levels_to_names() {
    assert_eq!(level_name("1"), "Critical");
    assert_eq!(level_name("2"), "Error");
    assert_eq!(level_name("3"), "Warning");
    assert_eq!(level_name("4"), "Information");
}

#[test]
fn handles_double_quoted_attributes() {
    let xml = r#"<Event><System><Provider Name="Test"/><EventID>41</EventID><Level>1</Level><TimeCreated SystemTime="2026-01-01T00:00:00Z"/></System></Event>"#;
    let e = parse_event_xml(xml).expect("should parse");
    assert_eq!(e.source, "Test");
    assert_eq!(e.event_id, 41);
    assert_eq!(e.level, "Critical");
}

#[test]
fn crashes_malformed_xml_returns_none_not_panic() {
    assert!(parse_event_xml("").is_none());
    assert!(parse_event_xml("<Event><System></System></Event>").is_none());
    assert!(parse_event_xml("<<<>>>").is_none());
}

/// A directory that does not exist holds no files.
#[test]
fn missing_minidump_directory_is_zero_not_an_error() {
    let (count, newest, recent) = scan_minidumps(&[], Timestamp { seconds: 0, nanos: 0 });
    assert_eq!(count, 0);
    assert_eq!(recent, 0);
    assert!(newest.is_none());
}

#[test]
fn builds_provider_queries() {
    assert_eq!(
        build_query("Microsoft-Windows-WHEA-Logger", None),
        "*[System[Provider[@Name='Microsoft-Windows-WHEA-Logger']]]"
    );
    assert_eq!(
        build_query("Microsoft-Windows-Kernel-Power", Some(41)),
        "*[System[Provider[@Name='Microsoft-Windows-Kernel-Power'] and (EventID=41)]]"
    );
}

fn dump(extension: &str, seconds: i64) -> DumpFile {
    DumpFile {
        extension: Some(extension.to_string()),
        modified: Some(Timestamp { seconds, nanos: 0 }),
    }
}

#[test]
fn minidumps_are_counted_by_extension_and_age() {
    let day: i64 = 86_400;
    let now = Timestamp { seconds: 100 * day, nanos: 0 };
    let files = vec![
        dump("dmp", 99 * day),
        dump("DMP", 71 * day),
        dump("dmp", 70 * day),
        dump("txt", 99 * day),
        DumpFile { extension: None, modified: None },
    ];
    let (count, newest, recent) = scan_minidumps(&files, now);
    assert_eq!(count, 3);
    assert_eq!(recent, 2);
    assert_eq!(newest.unwrap().seconds, 99 * day);
}

fn event(level: &str) -> CrashEvent {
    CrashEvent {
        timestamp: "2026-01-01T00:00:00Z".to_string(),
        source: "s".to_string(),
        event_id: 1,
        level: level.to_string(),
    }
}

#[test]
fn the_history_counts_errors_and_dates_the_newest_dump() {
    let files = vec![dump("dmp", 1_700_000_000)];
    let h = probe(
        &files,
        Timestamp { seconds: 1_700_000_060, nanos: 0 },
        true,
        Reading::value(vec![
            event("Error"),
            event("Warning"),
            event("error"),
            event(&level_name("1")),
            event(&level_name("2")),
            event(&level_name("3")),
            event(&level_name("4")),
        ]),
        Reading::missing(Unavailable::RequiresElevation),
    );
    assert_eq!(h.minidump_count, 1);
    assert_eq!(h.minidumps_last_30_days, 1);
    assert_eq!(h.most_recent_minidump.get(), Some(&"2023-11-14T22:13:20+00:00".to_string()));
    assert!(h.full_memory_dump_present);
    assert_eq!(h.whea_uncorrected_count, 4);
    assert!(!h.unexpected_shutdowns.is_ok());
}

/// Whatever the history, the counts are self-consistent.
#[test]
fn probing_this_machine_does_not_panic() {
    let h = probe(
        &[dump("dmp", 5), dump("dmp", 6)],
        Timestamp { seconds: 7, nanos: 0 },
        false,
        Reading::value(Vec::new()),
        Reading::value(Vec::new()),
    );
    assert!(h.minidumps_last_30_days <= h.minidump_count);
}

fn utf16(text: &str) -> Vec<u8> {
    let mut b: Vec<u8> = Vec::new();
    for unit in text.encode_utf16() {
        b.extend_from_slice(&unit.to_le_bytes());
    }
    b.extend_from_slice(&[0, 0]);
    b
}

#[test]
fn the_collector_stops_at_its_cap() {
    let mut c = EventCollector::new();
    c.add_document(&utf16(SAMPLE));
    assert_eq!(c.events.len(), 1);
    c.add_document(&utf16("no event at all"));
    assert_eq!(c.events.len(), 1);
    while c.wants_more() {
        c.add_document(&utf16(SAMPLE));
    }
    assert_eq!(c.events.len(), MAX_EVENTS);
    c.add_document(&utf16(SAMPLE));
    assert_eq!(c.events.len(), MAX_EVENTS);
}

#[test]
fn a_denied_query_asks_for_elevation() {
    match query_failure(&WinError::new("EvtQuery", 5)) {
        Reading::Missing { reason, .. } => assert_eq!(reason, Unavailable::RequiresElevation),
        Reading::Value { .. } => panic!("expected missing"),
    }
    match query_failure(&WinError::new("EvtQuery", 15007)) {
        Reading::Missing { note, .. } => {
            assert_eq!(note, "query failed: EvtQuery failed (os error 15007)")
        }
        Reading::Value { .. } => panic!("expected missing"),
    }
}

/// Rendered document to parsed event.
#[test]
fn event_pipeline_returns_real_parsed_events() {
    let mut c = EventCollector::new();
    c.add_document(&utf16(SAMPLE));
    let value = c.events;
    assert!(!value.is_empty(), "the log had no events");
    let e = &value[0];
    assert!(e.timestamp.starts_with("20"), "timestamp not parsed: {:?}", e.timestamp);
    assert!(e.event_id > 0, "event id not parsed: {:?}", e);
    assert!(!e.level.is_empty(), "level not parsed");
}
