use pc_checker::model::{Confidence, Finding, Reading, Severity, Unavailable};

fn note_of(r: &Reading<u32>) -> String {
    match r {
        Reading::Missing { note, .. } => note.clone(),
        Reading::Value { .. } => panic!("expected missing"),
    }
}

#[test]
fn missing_readings_carry_a_human_reason() {
    let r: Reading<u32> = Reading::missing(Unavailable::RequiresElevation);
    assert!(!r.is_ok());
    assert!(r.get().is_none());
    let note = note_of(&r);
    assert!(note.contains("requires administrator"), "got {note}");
}

#[test]
fn option_none_means_unsupported_not_error() {
    let r: Reading<u32> = None.into();
    match r {
        Reading::Missing { reason, .. } => {
            assert_eq!(reason, Unavailable::NotSupportedByHardware)
        }
        _ => panic!("expected missing"),
    }
}

#[test]
fn severity_orders_worst_last() {
    assert!(Severity::Critical > Severity::Problem);
    assert!(Severity::Problem > Severity::Watch);
    assert!(Severity::Watch > Severity::Fine);
}

#[test]
fn ranks_follow_the_order_of_severities() {
    assert_eq!(Severity::Fine.rank(), 0);
    assert_eq!(Severity::Watch.rank(), 1);
    assert_eq!(Severity::Problem.rank(), 2);
    assert_eq!(Severity::Critical.rank(), 3);
}

#[test]
fn every_reason_has_its_phrase() {
    assert_eq!(Unavailable::NotSupportedByHardware.describe(), "not supported by this hardware");
    assert_eq!(Unavailable::RequiresElevation.describe(), "requires administrator");
    assert_eq!(
        Unavailable::DriverMissing("PawnIO".to_string()).describe(),
        "driver not loaded (PawnIO)"
    );
    assert_eq!(
        Unavailable::VendorLibraryMissing("NVML".to_string()).describe(),
        "vendor library missing (NVML)"
    );
    assert_eq!(
        Unavailable::QueryFailed("no such device".to_string()).describe(),
        "query failed: no such device"
    );
    assert_eq!(
        Unavailable::ImplausibleValue("900 C".to_string()).describe(),
        "reported an implausible value (900 C)"
    );
    assert_eq!(Unavailable::NotApplicable.describe(), "not applicable");
}

#[test]
fn results_become_readings_with_their_error_text() {
    let ok: Reading<u32> = Reading::from(Ok::<u32, String>(7));
    assert_eq!(ok.get(), Some(&7));
    let failed: Reading<u32> = Reading::from(Err::<u32, String>("timeout".to_string()));
    assert_eq!(note_of(&failed), "query failed: timeout");
}

#[test]
fn mapping_changes_values_and_keeps_reasons() {
    let doubled = Reading::value(21u32).map(|v| v * 2);
    assert_eq!(doubled.get(), Some(&42));
    let missing: Reading<u32> = Reading::<u32>::unsupported().map(|v| v * 2);
    assert_eq!(note_of(&missing), "not supported by this hardware");
}

#[test]
fn findings_are_built_up_from_their_parts() {
    let f = Finding::new("a.b", "A title", Severity::Watch, Confidence::Heuristic)
        .observed("seen")
        .expected("wanted")
        .basis("known")
        .recommend("act")
        .cost(120);
    assert_eq!(f.id, "a.b");
    assert_eq!(f.title, "A title");
    assert_eq!(f.severity, Severity::Watch);
    assert_eq!(f.confidence, Confidence::Heuristic);
    assert_eq!(f.observed, "seen");
    assert_eq!(f.expected, "wanted");
    assert_eq!(f.basis, "known");
    assert_eq!(f.recommendation, "act");
    assert_eq!(f.estimated_cost_usd, Some(120));
}

#[test]
fn ok_readings_serialise_transparently() {
    let r = Reading::value(42u32);
    let shown = format!("{r:?}");
    assert!(shown.contains("42"), "got {shown}");
    assert_eq!(r.get(), Some(&42));
}
