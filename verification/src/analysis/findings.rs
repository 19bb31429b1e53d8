//! Rules over the read-only probes.
//!
//! Each component evaluates independently, so a scan of one part of the machine never
//! depends on having scanned the rest. The aggregate [`evaluate`] is just a composition
//! of the per-component passes.
use vstd::prelude::*;

use crate::analysis::order::{extend, sorted, worst_first};
use crate::measure::Share;
use crate::model::{Confidence, Finding, FindingView, Reading, ReadingView, Severity};
use crate::probes::ata_smart::{AtaHealth, AtaHealthView};
use crate::probes::battery::{BatteryReport, BatteryReportView};
use crate::probes::battery_history::{BatteryHistory, BatteryHistoryView};
use crate::probes::crashes::{CrashHistory, CrashHistoryView};
use crate::probes::firmware::{FirmwareReport, FirmwareReportView};
use crate::probes::gpu::{GpuReport, GpuReportView};
use crate::probes::memory::{ChannelConfig, MemoryReport, MemoryReportView};
use crate::probes::storage::{
    DriveHealth, DriveHealthView, DriveReport, DriveReportView, NvmeHealth, NvmeHealthView,
};
use crate::probes::{Inventory, InventoryView};
use crate::text::number::{
    dec, hex2, nearest, push_dec, push_hex2, push_tenths, round_ratio, tenths,
};

verus! {

/// Hours in a year, for turning drive odometers into something a human can judge.
pub const HOURS_PER_YEAR: u64 = 8_766;

/// A finding without a repair cost.
pub open spec fn finding(
    id: Seq<char>,
    title: Seq<char>,
    severity: Severity,
    confidence: Confidence,
    observed: Seq<char>,
    expected: Seq<char>,
    basis: Seq<char>,
    recommendation: Seq<char>,
) -> FindingView {
    FindingView {
        id,
        title,
        severity,
        confidence,
        observed,
        expected,
        basis,
        recommendation,
        estimated_cost_usd: None,
    }
}

/// A number, then a text.
pub(crate) fn numbered(n: u128, suffix: &str) -> (r: String)
    ensures
        r@ == dec(n as nat) + suffix@,
{
    let mut s = String::new();
    push_dec(&mut s, n);
    assert(s@ == dec(n as nat));
    s.append(suffix);
    s
}

/// A text, then a number.
pub(crate) fn labelled(prefix: &str, n: u128) -> (r: String)
    ensures
        r@ == prefix@ + dec(n as nat),
{
    let mut s = String::from_str(prefix);
    push_dec(&mut s, n);
    s
}

// ---------------------------------------------------------------------------
// Storage
// ---------------------------------------------------------------------------

/// What a drive is called in a report.
pub open spec fn drive_label(d: DriveReportView) -> Seq<char> {
    match d.model.get() {
        Some(model) => model,
        None => "Drive "@ + dec(d.index as nat),
    }
}

/// Sectors that wait for reallocation.
pub open spec fn pending_findings(label: Seq<char>, index: u32, count: ReadingView<u64>) -> Seq<
    FindingView,
> {
    match count.get() {
        Some(n) if n > 0 => seq![
            finding(
                "storage.pending."@ + dec(index as nat),
                label + " has unreadable sectors"@,
                Severity::Problem,
                Confidence::SpecGrounded,
                dec(n as nat) + " sector(s) pending reallocation"@,
                "0"@,
                "SMART attribute 197; any non-zero value means data the drive cannot currently read"@,
                "Treat this drive as failing. Do not store anything you care about on it, and price the machine assuming it needs replacing."@,
            ),
        ],
        _ => seq![],
    }
}

fn pending_rule(label: &str, index: u32, count: &Reading<u64>, out: &mut Vec<Finding>)
    ensures
        final(out).deep_view() == old(out).deep_view() + pending_findings(
            label@,
            index,
            count.deep_view(),
        ),
{
    if let Some(n) = count.get() {
        if *n > 0 {
            let f = Finding::new(
                labelled("storage.pending.", index as u128).as_str(),
                String::from_str(label).concat(" has unreadable sectors").as_str(),
                Severity::Problem,
                Confidence::SpecGrounded,
            ).observed(numbered(*n as u128, " sector(s) pending reallocation").as_str()).expected("0").basis(
                "SMART attribute 197; any non-zero value means data the drive cannot currently read",
            ).recommend(
                "Treat this drive as failing. Do not store anything you care about on it, and price the machine assuming it needs replacing.",
            );
            out.push(f);
        }
    }
}

/// Sectors that could not be corrected.
pub open spec fn uncorrectable_findings(
    label: Seq<char>,
    index: u32,
    count: ReadingView<u64>,
) -> Seq<FindingView> {
    match count.get() {
        Some(n) if n > 0 => seq![
            finding(
                "storage.uncorrectable."@ + dec(index as nat),
                label + " has uncorrectable sectors"@,
                Severity::Problem,
                Confidence::SpecGrounded,
                dec(n as nat) + " uncorrectable sector(s)"@,
                "0"@,
                "SMART attribute 198; these sectors have already lost data"@,
                "Data loss has already occurred on this drive. Replace it."@,
            ),
        ],
        _ => seq![],
    }
}

fn uncorrectable_rule(label: &str, index: u32, count: &Reading<u64>, out: &mut Vec<Finding>)
    ensures
        final(out).deep_view() == old(out).deep_view() + uncorrectable_findings(
            label@,
            index,
            count.deep_view(),
        ),
{
    if let Some(n) = count.get() {
        if *n > 0 {
            let f = Finding::new(
                labelled("storage.uncorrectable.", index as u128).as_str(),
                String::from_str(label).concat(" has uncorrectable sectors").as_str(),
                Severity::Problem,
                Confidence::SpecGrounded,
            ).observed(numbered(*n as u128, " uncorrectable sector(s)").as_str()).expected("0").basis(
                "SMART attribute 198; these sectors have already lost data",
            ).recommend("Data loss has already occurred on this drive. Replace it.");
            out.push(f);
        }
    }
}

/// Sectors that were remapped: a few are worth watching, many are a problem.
pub open spec fn reallocated_findings(
    label: Seq<char>,
    index: u32,
    count: ReadingView<u64>,
) -> Seq<FindingView> {
    match count.get() {
        Some(n) if n > 50 => seq![
            finding(
                "storage.realloc."@ + dec(index as nat),
                label + " has extensive sector remapping"@,
                Severity::Problem,
                Confidence::SpecGrounded,
                dec(n as nat) + " reallocated sectors"@,
                "0"@,
                "SMART attribute 5; remapping at this scale usually accelerates"@,
                "The drive is consuming its spare area. Budget for a replacement."@,
            ),
        ],
        Some(n) if n > 0 => seq![
            finding(
                "storage.realloc."@ + dec(index as nat),
                label + " has remapped sectors"@,
                Severity::Watch,
                Confidence::SpecGrounded,
                dec(n as nat) + " reallocated sector(s)"@,
                "0"@,
                "SMART attribute 5"@,
                "A small count can stay stable for years, but re-check the trend if you keep the drive."@,
            ),
        ],
        _ => seq![],
    }
}

fn reallocated_rule(label: &str, index: u32, count: &Reading<u64>, out: &mut Vec<Finding>)
    ensures
        final(out).deep_view() == old(out).deep_view() + reallocated_findings(
            label@,
            index,
            count.deep_view(),
        ),
{
    if let Some(n) = count.get() {
        if *n > 50 {
            let f = Finding::new(
                labelled("storage.realloc.", index as u128).as_str(),
                String::from_str(label).concat(" has extensive sector remapping").as_str(),
                Severity::Problem,
                Confidence::SpecGrounded,
            ).observed(numbered(*n as u128, " reallocated sectors").as_str()).expected("0").basis(
                "SMART attribute 5; remapping at this scale usually accelerates",
            ).recommend("The drive is consuming its spare area. Budget for a replacement.");
            out.push(f);
        } else if *n > 0 {
            let f = Finding::new(
                labelled("storage.realloc.", index as u128).as_str(),
                String::from_str(label).concat(" has remapped sectors").as_str(),
                Severity::Watch,
                Confidence::SpecGrounded,
            ).observed(numbered(*n as u128, " reallocated sector(s)").as_str()).expected("0").basis(
                "SMART attribute 5",
            ).recommend(
                "A small count can stay stable for years, but re-check the trend if you keep the drive.",
            );
            out.push(f);
        }
    }
}

/// Write endurance that is nearly spent.
pub open spec fn life_findings(label: Seq<char>, index: u32, life: ReadingView<u8>) -> Seq<
    FindingView,
> {
    match life.get() {
        Some(n) if n < 20 => seq![
            finding(
                "storage.life."@ + dec(index as nat),
                label + " is near the end of its write endurance"@,
                Severity::Problem,
                Confidence::SpecGrounded,
                dec(n as nat) + "% endurance remaining"@,
                "above 20%"@,
                "SSD wear-levelling attribute, normalised by the drive's own controller"@,
                "Assume this SSD needs replacing soon and negotiate accordingly."@,
            ),
        ],
        _ => seq![],
    }
}

fn life_rule(label: &str, index: u32, life: &Reading<u8>, out: &mut Vec<Finding>)
    ensures
        final(out).deep_view() == old(out).deep_view() + life_findings(
            label@,
            index,
            life.deep_view(),
        ),
{
    if let Some(n) = life.get() {
        if *n < 20 {
            let f = Finding::new(
                labelled("storage.life.", index as u128).as_str(),
                String::from_str(label).concat(" is near the end of its write endurance").as_str(),
                Severity::Problem,
                Confidence::SpecGrounded,
            ).observed(numbered(*n as u128, "% endurance remaining").as_str()).expected("above 20%").basis(
                "SSD wear-levelling attribute, normalised by the drive's own controller",
            ).recommend("Assume this SSD needs replacing soon and negotiate accordingly.");
            out.push(f);
        }
    }
}

/// Years of powered operation, in tenths of a year.
pub open spec fn tenths_of_years(hours: u64) -> nat {
    nearest((10 * hours) as nat, HOURS_PER_YEAR as nat)
}

/// Power-on hours is the machine's odometer, and the hardest number for a seller to
/// fake. Reported as context rather than a defect: age alone is not a fault.
pub open spec fn age_findings(label: Seq<char>, index: u32, hours: ReadingView<u64>) -> Seq<
    FindingView,
> {
    match hours.get() {
        Some(h) if h > 0 => seq![
            finding(
                "storage.age."@ + dec(index as nat),
                label + " has "@ + dec(h as nat) + " power-on hours"@,
                if h >= 5 * HOURS_PER_YEAR {
                    Severity::Watch
                } else {
                    Severity::Fine
                },
                Confidence::SpecGrounded,
                dec(h as nat) + " hours, about "@ + tenths(tenths_of_years(h))
                    + " years of powered operation"@,
                "consistent with the age the seller states"@,
                "SMART power-on hours, which a seller cannot reset by reinstalling Windows"@,
                "Cross-check against the claimed age. A machine described as lightly used should not show years of runtime."@,
            ),
        ],
        _ => seq![],
    }
}

fn age_rule(label: &str, index: u32, hours: &Reading<u64>, out: &mut Vec<Finding>)
    ensures
        final(out).deep_view() == old(out).deep_view() + age_findings(
            label@,
            index,
            hours.deep_view(),
        ),
{
    if let Some(h) = hours.get() {
        let h = *h;
        if h > 0 {
            let severity = if h >= 5 * HOURS_PER_YEAR {
                Severity::Watch
            } else {
                Severity::Fine
            };
            let mut title = String::from_str(label);
            title.append(" has ");
            push_dec(&mut title, h as u128);
            title.append(" power-on hours");
            let mut observed = numbered(h as u128, " hours, about ");
            push_tenths(&mut observed, round_ratio(10u128 * h as u128, HOURS_PER_YEAR as u128));
            observed.append(" years of powered operation");
            let f = Finding::new(
                labelled("storage.age.", index as u128).as_str(),
                title.as_str(),
                severity,
                Confidence::SpecGrounded,
            ).observed(observed.as_str()).expected("consistent with the age the seller states").basis(
                "SMART power-on hours, which a seller cannot reset by reinstalling Windows",
            ).recommend(
                "Cross-check against the claimed age. A machine described as lightly used should not show years of runtime.",
            );
            out.push(f);
        }
    }
}

/// What follows from the SMART data of an ATA drive.
pub open spec fn ata_findings(label: Seq<char>, index: u32, a: AtaHealthView) -> Seq<FindingView> {
    pending_findings(label, index, a.pending_sectors) + uncorrectable_findings(
        label,
        index,
        a.uncorrectable_sectors,
    ) + reallocated_findings(label, index, a.reallocated_sectors) + life_findings(
        label,
        index,
        a.life_remaining_percent,
    ) + age_findings(label, index, a.power_on_hours)
}

fn ata_rules(label: &str, index: u32, ata: &AtaHealth, out: &mut Vec<Finding>)
    ensures
        final(out).deep_view() == old(out).deep_view() + ata_findings(label@, index, ata.deep_view()),
{
    pending_rule(label, index, &ata.pending_sectors, out);
    uncorrectable_rule(label, index, &ata.uncorrectable_sectors, out);
    reallocated_rule(label, index, &ata.reallocated_sectors, out);
    life_rule(label, index, &ata.life_remaining_percent, out);
    age_rule(label, index, &ata.power_on_hours, out);
}

/// A fault that the controller is flagging.
pub open spec fn critical_warning_findings(label: Seq<char>, index: u32, warning: u8) -> Seq<
    FindingView,
> {
    if warning != 0 {
        seq![
            finding(
                "storage.critical."@ + dec(index as nat),
                label + " is reporting a critical warning"@,
                Severity::Critical,
                Confidence::SpecGrounded,
                "critical warning bitmask 0x"@ + hex2(warning),
                "0x00"@,
                "NVMe SMART/Health log page 02h, critical warning field"@,
                "The controller is flagging an active fault. Do not buy on the assumption this drive is usable."@,
            ),
        ]
    } else {
        seq![]
    }
}

fn critical_warning_rule(label: &str, index: u32, warning: u8, out: &mut Vec<Finding>)
    ensures
        final(out).deep_view() == old(out).deep_view() + critical_warning_findings(
            label@,
            index,
            warning,
        ),
{
    if warning != 0 {
        let mut observed = String::from_str("critical warning bitmask 0x");
        push_hex2(&mut observed, warning);
        let f = Finding::new(
            labelled("storage.critical.", index as u128).as_str(),
            String::from_str(label).concat(" is reporting a critical warning").as_str(),
            Severity::Critical,
            Confidence::SpecGrounded,
        ).observed(observed.as_str()).expected("0x00").basis(
            "NVMe SMART/Health log page 02h, critical warning field",
        ).recommend(
            "The controller is flagging an active fault. Do not buy on the assumption this drive is usable.",
        );
        out.push(f);
    }
}

/// Rated write endurance that is used up, or nearly.
pub open spec fn endurance_findings(label: Seq<char>, index: u32, used: ReadingView<u8>) -> Seq<
    FindingView,
> {
    match used.get() {
        Some(n) if n >= 90 => seq![
            finding(
                "storage.used."@ + dec(index as nat),
                label + " has consumed its rated endurance"@,
                Severity::Problem,
                Confidence::SpecGrounded,
                dec(n as nat) + "% of rated write endurance used"@,
                "below 80%"@,
                "NVMe percentage-used field, computed by the drive's own controller"@,
                "Price the machine as needing a new SSD."@,
            ),
        ],
        Some(n) if n >= 80 => seq![
            finding(
                "storage.used."@ + dec(index as nat),
                label + " is well into its rated endurance"@,
                Severity::Watch,
                Confidence::SpecGrounded,
                dec(n as nat) + "% of rated write endurance used"@,
                "below 80%"@,
                "NVMe percentage-used field"@,
                "Usable, but factor a future SSD replacement into the price."@,
            ),
        ],
        _ => seq![],
    }
}

fn endurance_rule(label: &str, index: u32, used: &Reading<u8>, out: &mut Vec<Finding>)
    ensures
        final(out).deep_view() == old(out).deep_view() + endurance_findings(
            label@,
            index,
            used.deep_view(),
        ),
{
    if let Some(n) = used.get() {
        if *n >= 90 {
            let f = Finding::new(
                labelled("storage.used.", index as u128).as_str(),
                String::from_str(label).concat(" has consumed its rated endurance").as_str(),
                Severity::Problem,
                Confidence::SpecGrounded,
            ).observed(numbered(*n as u128, "% of rated write endurance used").as_str()).expected(
                "below 80%",
            ).basis("NVMe percentage-used field, computed by the drive's own controller").recommend(
                "Price the machine as needing a new SSD.",
            );
            out.push(f);
        } else if *n >= 80 {
            let f = Finding::new(
                labelled("storage.used.", index as u128).as_str(),
                String::from_str(label).concat(" is well into its rated endurance").as_str(),
                Severity::Watch,
                Confidence::SpecGrounded,
            ).observed(numbered(*n as u128, "% of rated write endurance used").as_str()).expected(
                "below 80%",
            ).basis("NVMe percentage-used field").recommend(
                "Usable, but factor a future SSD replacement into the price.",
            );
            out.push(f);
        }
    }
}

/// Spare blocks below the threshold that the drive itself states.
pub open spec fn spare_findings(
    label: Seq<char>,
    index: u32,
    spare: ReadingView<u8>,
    threshold: ReadingView<u8>,
) -> Seq<FindingView> {
    match (spare.get(), threshold.get()) {
        (Some(s), Some(t)) if t > 0 && s < t => seq![
            finding(
                "storage.spare."@ + dec(index as nat),
                label + " has exhausted its spare blocks"@,
                Severity::Critical,
                Confidence::SpecGrounded,
                dec(s as nat) + "% spare remaining"@,
                "at or above the drive's "@ + dec(t as nat) + "% threshold"@,
                "NVMe available-spare vs the controller's own threshold"@,
                "This drive is at end of life by its manufacturer's definition."@,
            ),
        ],
        _ => seq![],
    }
}

fn spare_rule(
    label: &str,
    index: u32,
    spare: &Reading<u8>,
    threshold: &Reading<u8>,
    out: &mut Vec<Finding>,
)
    ensures
        final(out).deep_view() == old(out).deep_view() + spare_findings(
            label@,
            index,
            spare.deep_view(),
            threshold.deep_view(),
        ),
{
    if let (Some(s), Some(t)) = (spare.get(), threshold.get()) {
        if *t > 0 && *s < *t {
            let expected = labelled("at or above the drive's ", *t as u128).concat("% threshold");
            let f = Finding::new(
                labelled("storage.spare.", index as u128).as_str(),
                String::from_str(label).concat(" has exhausted its spare blocks").as_str(),
                Severity::Critical,
                Confidence::SpecGrounded,
            ).observed(numbered(*s as u128, "% spare remaining").as_str()).expected(
                expected.as_str(),
            ).basis("NVMe available-spare vs the controller's own threshold").recommend(
                "This drive is at end of life by its manufacturer's definition.",
            );
            out.push(f);
        }
    }
}

/// Data that the drive could not return correctly.
pub open spec fn media_error_findings(label: Seq<char>, index: u32, errors: ReadingView<u64>) -> Seq<
    FindingView,
> {
    match errors.get() {
        Some(n) if n > 0 => seq![
            finding(
                "storage.media."@ + dec(index as nat),
                label + " has logged media errors"@,
                Severity::Problem,
                Confidence::SpecGrounded,
                dec(n as nat) + " media/data-integrity error(s)"@,
                "0"@,
                "NVMe media and data integrity errors counter"@,
                "The drive has encountered data it could not return correctly. Replace it."@,
            ),
        ],
        _ => seq![],
    }
}

fn media_error_rule(label: &str, index: u32, errors: &Reading<u64>, out: &mut Vec<Finding>)
    ensures
        final(out).deep_view() == old(out).deep_view() + media_error_findings(
            label@,
            index,
            errors.deep_view(),
        ),
{
    if let Some(n) = errors.get() {
        if *n > 0 {
            let f = Finding::new(
                labelled("storage.media.", index as u128).as_str(),
                String::from_str(label).concat(" has logged media errors").as_str(),
                Severity::Problem,
                Confidence::SpecGrounded,
            ).observed(numbered(*n as u128, " media/data-integrity error(s)").as_str()).expected(
                "0",
            ).basis("NVMe media and data integrity errors counter").recommend(
                "The drive has encountered data it could not return correctly. Replace it.",
            );
            out.push(f);
        }
    }
}

/// What follows from the health log of an NVMe drive.
pub open spec fn nvme_findings(label: Seq<char>, index: u32, n: NvmeHealthView) -> Seq<FindingView> {
    critical_warning_findings(label, index, n.critical_warning) + endurance_findings(
        label,
        index,
        n.percentage_used,
    ) + spare_findings(
        label,
        index,
        n.available_spare_percent,
        n.available_spare_threshold_percent,
    ) + media_error_findings(label, index, n.media_errors) + age_findings(
        label,
        index,
        n.power_on_hours,
    )
}

fn nvme_rules(label: &str, index: u32, nvme: &NvmeHealth, out: &mut Vec<Finding>)
    ensures
        final(out).deep_view() == old(out).deep_view() + nvme_findings(
            label@,
            index,
            nvme.deep_view(),
        ),
{
    critical_warning_rule(label, index, nvme.critical_warning, out);
    endurance_rule(label, index, &nvme.percentage_used, out);
    spare_rule(
        label,
        index,
        &nvme.available_spare_percent,
        &nvme.available_spare_threshold_percent,
        out,
    );
    media_error_rule(label, index, &nvme.media_errors, out);
    age_rule(label, index, &nvme.power_on_hours, out);
}

/// What follows from one drive: nothing where its health could not be read.
pub open spec fn drive_findings(d: DriveReportView) -> Seq<FindingView> {
    match d.health.get() {
        None => seq![],
        Some(DriveHealthView::Ata(a)) => ata_findings(drive_label(d), d.index, a),
        Some(DriveHealthView::Nvme(n)) => nvme_findings(drive_label(d), d.index, n),
    }
}

/// What follows from each drive in turn.
pub open spec fn drives_findings(drives: Seq<DriveReportView>) -> Seq<FindingView>
    decreases drives.len(),
{
    if drives.len() == 0 {
        seq![]
    } else {
        drives_findings(drives.drop_last()) + drive_findings(drives.last())
    }
}

/// The report on storage.
pub open spec fn storage_report(drives: Seq<DriveReportView>) -> Seq<FindingView> {
    worst_first(drives_findings(drives))
}

fn drive_rules(drive: &DriveReport, out: &mut Vec<Finding>)
    ensures
        final(out).deep_view() == old(out).deep_view() + drive_findings(drive.deep_view()),
{
    let label = match drive.model.get() {
        Some(model) => model.clone(),
        None => labelled("Drive ", drive.index as u128),
    };
    match drive.health.get() {
        None => {},
        Some(DriveHealth::Ata(ata)) => ata_rules(label.as_str(), drive.index, ata, out),
        Some(DriveHealth::Nvme(nvme)) => nvme_rules(label.as_str(), drive.index, nvme, out),
    }
}

pub fn storage(drives: &[DriveReport]) -> (r: Vec<Finding>)
    ensures
        r.deep_view() == storage_report(drives.deep_view()),
{
    let mut out: Vec<Finding> = Vec::new();
    let ghost all = drives.deep_view();
    assert(out.deep_view() == drives_findings(all.take(0)));
    for i in 0..drives.len()
        invariant
            all == drives.deep_view(),
            out.deep_view() == drives_findings(all.take(i as int)),
    {
        drive_rules(&drives[i], &mut out);
        assert(all.take(i + 1).drop_last() == all.take(i as int));
        assert(all.take(i + 1).last() == drives[i as int].deep_view());
    }
    assert(all.take(all.len() as int) == all);
    sorted(out)
}

// ---------------------------------------------------------------------------
// Battery
// ---------------------------------------------------------------------------

/// How serious it is that a pack holds this share of its design capacity.
pub open spec fn wear_severity(health: Share) -> Severity {
    if health.is_below(60) {
        Severity::Problem
    } else if health.is_below(80) {
        Severity::Watch
    } else {
        Severity::Fine
    }
}

/// What to do about a pack that holds this share of its design capacity.
pub open spec fn wear_advice(health: Share) -> Seq<char> {
    if health.is_below(60) {
        "Expect to replace the pack. Get a quote for this model and take it off the price."@
    } else if health.is_below(80) {
        "Noticeably degraded. Usable, but runtime will be well below the original."@
    } else {
        "Healthy for a used machine."@
    }
}

/// The wear of the pack in place `i`.
pub open spec fn pack_findings(i: nat, pack: BatteryReportView) -> Seq<FindingView> {
    match pack.health.get() {
        Some(health) => seq![
            finding(
                "battery.health."@ + dec(i),
                "Battery at "@ + health.percent_text() + "% of design capacity"@,
                wear_severity(health),
                Confidence::SpecGrounded,
                health.percent_tenths_text() + "% of design capacity"@,
                "above 80% for a well-kept machine"@,
                "Full-charge capacity against design capacity, as reported by the pack"@,
                wear_advice(health),
            ),
        ],
        None => seq![],
    }
}

fn pack_rule(i: usize, pack: &BatteryReport, out: &mut Vec<Finding>)
    requires
        pack.deep_view().health.get() matches Some(h) ==> h.wf(),
    ensures
        final(out).deep_view() == old(out).deep_view() + pack_findings(i as nat, pack.deep_view()),
{
    if let Some(health) = pack.health.get() {
        let health = *health;
        let (severity, advice) = if health.below(60) {
            (
                Severity::Problem,
                "Expect to replace the pack. Get a quote for this model and take it off the price.",
            )
        } else if health.below(80) {
            (
                Severity::Watch,
                "Noticeably degraded. Usable, but runtime will be well below the original.",
            )
        } else {
            (Severity::Fine, "Healthy for a used machine.")
        };
        let mut title = String::from_str("Battery at ");
        health.push_percent(&mut title);
        title.append("% of design capacity");
        let mut observed = String::new();
        health.push_percent_tenths(&mut observed);
        assert(observed@ == health.percent_tenths_text());
        observed.append("% of design capacity");
        let f = Finding::new(
            labelled("battery.health.", i as u128).as_str(),
            title.as_str(),
            severity,
            Confidence::SpecGrounded,
        ).observed(observed.as_str()).expected("above 80% for a well-kept machine").basis(
            "Full-charge capacity against design capacity, as reported by the pack",
        ).recommend(advice);
        out.push(f);
    }
}

/// The wear of each pack in turn.
pub open spec fn packs_findings(packs: Seq<BatteryReportView>) -> Seq<FindingView>
    decreases packs.len(),
{
    if packs.len() == 0 {
        seq![]
    } else {
        packs_findings(packs.drop_last()) + pack_findings((packs.len() - 1) as nat, packs.last())
    }
}

/// Every wear figure of these packs is a share of something.
pub open spec fn packs_wf(packs: Seq<BatteryReportView>) -> bool {
    forall|i: int|
        0 <= i < packs.len() ==> ((#[trigger] packs[i]).health.get() matches Some(h) ==> h.wf())
}

/// A pack that is not the original one.
pub open spec fn swap_findings(h: BatteryHistoryView) -> Seq<FindingView> {
    if h.battery_swap_detected {
        seq![
            finding(
                "battery.swapped"@,
                "The battery has been replaced at some point"@,
                Severity::Watch,
                Confidence::SpecGrounded,
                "Windows recorded a battery change in its power history"@,
                "the original pack, for a machine described as original"@,
                "BatteryChanged flag in the powercfg battery report history"@,
                "Ask what was replaced and whether the pack is an OEM part. Third-party packs vary a lot in quality."@,
            ),
        ]
    } else {
        seq![]
    }
}

/// A capacity that falls by more than 15 percent of the design capacity per year.
pub open spec fn degradation_findings(h: BatteryHistoryView) -> Seq<FindingView> {
    match h.degradation_micro_percent_per_year.get() {
        Some(rate) if rate < -15_000_000 => seq![
            finding(
                "battery.degradation"@,
                "Battery capacity is falling quickly"@,
                Severity::Problem,
                Confidence::SpecGrounded,
                "about -"@ + dec(nearest((-rate) as nat, 1_000_000))
                    + "% of design capacity lost per year"@,
                "a gentler decline, typically under 10% per year"@,
                "Least-squares fit over "@ + dec(h.observation_days as nat)
                    + " days of Windows capacity history"@,
                "A pack degrading this fast will need replacing sooner than its current health suggests."@,
            ),
        ],
        _ => seq![],
    }
}

fn swap_rule(h: &BatteryHistory, out: &mut Vec<Finding>)
    ensures
        final(out).deep_view() == old(out).deep_view() + swap_findings(h.deep_view()),
{
    if h.battery_swap_detected {
        let f = Finding::new(
            "battery.swapped",
            "The battery has been replaced at some point",
            Severity::Watch,
            Confidence::SpecGrounded,
        ).observed("Windows recorded a battery change in its power history").expected(
            "the original pack, for a machine described as original",
        ).basis("BatteryChanged flag in the powercfg battery report history").recommend(
            "Ask what was replaced and whether the pack is an OEM part. Third-party packs vary a lot in quality.",
        );
        out.push(f);
    }
}

fn degradation_rule(h: &BatteryHistory, out: &mut Vec<Finding>)
    ensures
        final(out).deep_view() == old(out).deep_view() + degradation_findings(h.deep_view()),
{
    if let Some(rate) = h.degradation_micro_percent_per_year.get() {
        let rate = *rate;
        if rate < -15_000_000 {
            let lost: u128 = (-(rate + 1)) as u128 + 1;
            let mut observed = String::from_str("about -");
            push_dec(&mut observed, round_ratio(lost, 1_000_000));
            observed.append("% of design capacity lost per year");
            let basis = labelled("Least-squares fit over ", h.observation_days as u128).concat(
                " days of Windows capacity history",
            );
            let f = Finding::new(
                "battery.degradation",
                "Battery capacity is falling quickly",
                Severity::Problem,
                Confidence::SpecGrounded,
            ).observed(observed.as_str()).expected("a gentler decline, typically under 10% per year").basis(
                basis.as_str(),
            ).recommend(
                "A pack degrading this fast will need replacing sooner than its current health suggests.",
            );
            out.push(f);
        }
    }
}

/// What follows from the batteries and from their history.
pub open spec fn battery_findings(
    batteries: ReadingView<Seq<BatteryReportView>>,
    history: ReadingView<BatteryHistoryView>,
) -> Seq<FindingView> {
    (match batteries.get() {
        Some(packs) => packs_findings(packs),
        None => seq![],
    }) + (match history.get() {
        Some(h) => swap_findings(h) + degradation_findings(h),
        None => seq![],
    })
}

/// The report on the batteries.
pub open spec fn battery_report(
    batteries: ReadingView<Seq<BatteryReportView>>,
    history: ReadingView<BatteryHistoryView>,
) -> Seq<FindingView> {
    worst_first(battery_findings(batteries, history))
}

fn packs_rules(packs: &[BatteryReport], out: &mut Vec<Finding>)
    requires
        packs_wf(packs.deep_view()),
    ensures
        final(out).deep_view() == old(out).deep_view() + packs_findings(packs.deep_view()),
{
    let ghost all = packs.deep_view();
    let ghost before = out.deep_view();
    assert(out.deep_view() == before + packs_findings(all.take(0)));
    for i in 0..packs.len()
        invariant
            all == packs.deep_view(),
            packs_wf(all),
            out.deep_view() == before + packs_findings(all.take(i as int)),
    {
        assert(all[i as int] == packs[i as int].deep_view());
        pack_rule(i, &packs[i], out);
        assert(all.take(i + 1).drop_last() == all.take(i as int));
        assert(all.take(i + 1).last() == packs[i as int].deep_view());
    }
    assert(all.take(all.len() as int) == all);
}

pub fn battery(batteries: &Reading<Vec<BatteryReport>>, history: &Reading<BatteryHistory>) -> (r: Vec<
    Finding,
>)
    requires
        batteries.deep_view().get() matches Some(packs) ==> packs_wf(packs),
    ensures
        r.deep_view() == battery_report(batteries.deep_view(), history.deep_view()),
{
    let mut out: Vec<Finding> = Vec::new();
    if let Some(packs) = batteries.get() {
        let all = packs.as_slice();
        assert(all.deep_view() == packs.deep_view());
        packs_rules(all, &mut out);
    }
    if let Some(h) = history.get() {
        swap_rule(h, &mut out);
        degradation_rule(h, &mut out);
    }
    assert(out.deep_view() == battery_findings(batteries.deep_view(), history.deep_view()));
    sorted(out)
}

// ---------------------------------------------------------------------------
// Memory
// ---------------------------------------------------------------------------

/// Modules that leave a channel unused, or that do not match.
pub open spec fn channel_findings(mem: MemoryReportView) -> Seq<FindingView> {
    if mem.populated_slots > 0 && mem.channel_config == ChannelConfig::Single && mem.total_slots
        > mem.populated_slots {
        seq![
            finding(
                "memory.single_channel"@,
                "Memory is running in single channel"@,
                Severity::Watch,
                Confidence::Heuristic,
                dec(mem.populated_slots) + " of "@ + dec(mem.total_slots)
                    + " slots populated, all on one channel"@,
                "modules split across two channels"@,
                "Slot naming in the SMBIOS memory device table"@,
                "Real-world performance is meaningfully below what this hardware can do. Adding a matched module is usually cheap."@,
            ),
        ]
    } else if mem.populated_slots > 0 && mem.channel_config == ChannelConfig::Asymmetric {
        seq![
            finding(
                "memory.asymmetric"@,
                "Memory modules do not match"@,
                Severity::Watch,
                Confidence::Heuristic,
                "populated modules differ in size, speed or part number"@,
                "identical modules"@,
                "SMBIOS memory device entries"@,
                "Only part of the memory runs in dual channel. Worth knowing, not worth walking away over."@,
            ),
        ]
    } else {
        seq![]
    }
}

/// Modules that run slower than they are rated for.
pub open spec fn speed_findings(mem: MemoryReportView) -> Seq<FindingView> {
    if mem.running_below_rated_speed {
        seq![
            finding(
                "memory.below_rated"@,
                "Memory is running below its rated speed"@,
                Severity::Watch,
                Confidence::SpecGrounded,
                "configured speed is below the modules' own rated speed"@,
                "modules running at their rated speed"@,
                "SMBIOS rated speed against configured speed"@,
                "Usually just XMP/EXPO left disabled in firmware, which is a free fix rather than a fault."@,
            ),
        ]
    } else {
        seq![]
    }
}

/// Memory that cannot be replaced.
pub open spec fn soldered_findings(mem: MemoryReportView) -> Seq<FindingView> {
    if mem.all_soldered {
        seq![
            finding(
                "memory.soldered"@,
                "Memory is soldered and cannot be upgraded"@,
                Severity::Watch,
                Confidence::SpecGrounded,
                dec(mem.total_mb) + " MB, all soldered to the board"@,
                "socketed modules, if you intend to upgrade"@,
                "SMBIOS form factor 0x0F (row of chips)"@,
                "The memory this machine has is the memory it will always have. Judge the price on that basis."@,
            ),
        ]
    } else {
        seq![]
    }
}

/// The report on memory.
pub open spec fn memory_report(mem: MemoryReportView) -> Seq<FindingView> {
    worst_first(channel_findings(mem) + speed_findings(mem) + soldered_findings(mem))
}

fn channel_rule(mem: &MemoryReport, out: &mut Vec<Finding>)
    ensures
        final(out).deep_view() == old(out).deep_view() + channel_findings(mem.deep_view()),
{
    if mem.populated_slots > 0 {
        match mem.channel_config {
            ChannelConfig::Single => {
                if mem.total_slots > mem.populated_slots {
                    let mut observed = numbered(mem.populated_slots as u128, " of ");
                    push_dec(&mut observed, mem.total_slots as u128);
                    observed.append(" slots populated, all on one channel");
                    let f = Finding::new(
                        "memory.single_channel",
                        "Memory is running in single channel",
                        Severity::Watch,
                        Confidence::Heuristic,
                    ).observed(observed.as_str()).expected("modules split across two channels").basis(
                        "Slot naming in the SMBIOS memory device table",
                    ).recommend(
                        "Real-world performance is meaningfully below what this hardware can do. Adding a matched module is usually cheap.",
                    );
                    out.push(f);
                }
            },
            ChannelConfig::Asymmetric => {
                let f = Finding::new(
                    "memory.asymmetric",
                    "Memory modules do not match",
                    Severity::Watch,
                    Confidence::Heuristic,
                ).observed("populated modules differ in size, speed or part number").expected(
                    "identical modules",
                ).basis("SMBIOS memory device entries").recommend(
                    "Only part of the memory runs in dual channel. Worth knowing, not worth walking away over.",
                );
                out.push(f);
            },
            _ => {},
        }
    }
}

pub fn memory(mem: &MemoryReport) -> (r: Vec<Finding>)
    ensures
        r.deep_view() == memory_report(mem.deep_view()),
{
    let mut out: Vec<Finding> = Vec::new();
    channel_rule(mem, &mut out);
    let ghost channel = out.deep_view();
    if mem.running_below_rated_speed {
        let f = Finding::new(
            "memory.below_rated",
            "Memory is running below its rated speed",
            Severity::Watch,
            Confidence::SpecGrounded,
        ).observed("configured speed is below the modules' own rated speed").expected(
            "modules running at their rated speed",
        ).basis("SMBIOS rated speed against configured speed").recommend(
            "Usually just XMP/EXPO left disabled in firmware, which is a free fix rather than a fault.",
        );
        out.push(f);
    }
    assert(out.deep_view() == channel + speed_findings(mem.deep_view()));
    let ghost speed = out.deep_view();
    if mem.all_soldered {
        let f = Finding::new(
            "memory.soldered",
            "Memory is soldered and cannot be upgraded",
            Severity::Watch,
            Confidence::SpecGrounded,
        ).observed(numbered(mem.total_mb as u128, " MB, all soldered to the board").as_str()).expected(
            "socketed modules, if you intend to upgrade",
        ).basis("SMBIOS form factor 0x0F (row of chips)").recommend(
            "The memory this machine has is the memory it will always have. Judge the price on that basis.",
        );
        out.push(f);
    }
    assert(out.deep_view() == speed + soldered_findings(mem.deep_view()));
    sorted(out)
}

// ---------------------------------------------------------------------------
// Firmware
// ---------------------------------------------------------------------------

/// The texts one after another, with `, ` between them.
pub open spec fn joined(parts: Seq<Seq<char>>) -> Seq<char>
    decreases parts.len(),
{
    if parts.len() == 0 {
        seq![]
    } else if parts.len() == 1 {
        parts[0]
    } else {
        joined(parts.drop_last()) + ", "@ + parts.last()
    }
}

fn join(parts: &Vec<String>) -> (r: String)
    ensures
        r@ == joined(parts.deep_view()),
{
    let ghost all = parts.deep_view();
    let mut s = String::new();
    for i in 0..parts.len()
        invariant
            all == parts.deep_view(),
            s@ == joined(all.take(i as int)),
    {
        let ghost before = s@;
        if i > 0 {
            s.append(", ");
        }
        s.append(parts[i].as_str());
        assert(all.take(i + 1).drop_last() == all.take(i as int));
        assert(all.take(i + 1).last() == parts[i as int]@);
        if i == 0 {
            assert(s@ == parts[0]@);
        }
    }
    assert(all.take(all.len() as int) == all);
    s
}

/// What follows from firmware persistence: an agent on disk outranks a mere injection point.
pub open spec fn firmware_findings(fw: FirmwareReportView) -> Seq<FindingView> {
    let p = fw.persistence;
    if p.absolute_agent_artifacts.len() > 0 {
        seq![
            finding(
                "firmware.absolute"@,
                "Absolute/Computrace anti-theft tracking is installed"@,
                Severity::Critical,
                Confidence::SpecGrounded,
                "found "@ + joined(p.absolute_agent_artifacts),
                "no corporate anti-theft agent"@,
                "Absolute agent executables present on disk"@,
                "A previous owner's IT department may be able to lock or wipe this machine remotely, and reinstalling Windows does not remove it. Do not buy until the seller proves it is deactivated."@,
            ),
        ]
    } else if p.wpbt_present {
        seq![
            finding(
                "firmware.wpbt"@,
                "Firmware injects an executable at every boot"@,
                Severity::Watch,
                Confidence::SpecGrounded,
                "a WPBT table is present in ACPI"@,
                "no firmware-injected executable, or a known OEM one"@,
                "Windows Platform Binary Table in the live ACPI table list"@,
                "Often a benign OEM driver installer, but it is also how anti-theft tracking persists across a disk wipe. Worth identifying before you buy."@,
            ),
        ]
    } else {
        seq![]
    }
}

/// The report on the firmware.
pub open spec fn firmware_report(fw: FirmwareReportView) -> Seq<FindingView> {
    worst_first(firmware_findings(fw))
}

pub fn firmware(fw: &FirmwareReport) -> (r: Vec<Finding>)
    ensures
        r.deep_view() == firmware_report(fw.deep_view()),
{
    let mut out: Vec<Finding> = Vec::new();
    let p = &fw.persistence;
    if p.absolute_agent_artifacts.len() > 0 {
        let observed = String::from_str("found ").concat(join(&p.absolute_agent_artifacts).as_str());
        let f = Finding::new(
            "firmware.absolute",
            "Absolute/Computrace anti-theft tracking is installed",
            Severity::Critical,
            Confidence::SpecGrounded,
        ).observed(observed.as_str()).expected("no corporate anti-theft agent").basis(
            "Absolute agent executables present on disk",
        ).recommend(
            "A previous owner's IT department may be able to lock or wipe this machine remotely, and reinstalling Windows does not remove it. Do not buy until the seller proves it is deactivated.",
        );
        out.push(f);
    } else if p.wpbt_present {
        let f = Finding::new(
            "firmware.wpbt",
            "Firmware injects an executable at every boot",
            Severity::Watch,
            Confidence::SpecGrounded,
        ).observed("a WPBT table is present in ACPI").expected(
            "no firmware-injected executable, or a known OEM one",
        ).basis("Windows Platform Binary Table in the live ACPI table list").recommend(
            "Often a benign OEM driver installer, but it is also how anti-theft tracking persists across a disk wipe. Worth identifying before you buy.",
        );
        out.push(f);
    }
    assert(out.deep_view() == firmware_findings(fw.deep_view()));
    sorted(out)
}

// ---------------------------------------------------------------------------
// Graphics
// ---------------------------------------------------------------------------

/// A machine whose only display adapters are software renderers.
pub open spec fn gpu_findings(gpus: Seq<GpuReportView>) -> Seq<FindingView> {
    if gpus.len() > 0 && (forall|i: int| 0 <= i < gpus.len() ==> (#[trigger] gpus[i]).is_software) {
        seq![
            finding(
                "gpu.software_only"@,
                "No hardware graphics adapter is active"@,
                Severity::Problem,
                Confidence::SpecGrounded,
                "only a software renderer was enumerated"@,
                "at least one hardware adapter"@,
                "DXGI adapter enumeration"@,
                "Either the GPU driver is not installed or the adapter has failed. Find out which before buying."@,
            ),
        ]
    } else {
        seq![]
    }
}

/// The report on the display adapters.
pub open spec fn gpu_report(gpus: Seq<GpuReportView>) -> Seq<FindingView> {
    worst_first(gpu_findings(gpus))
}

pub fn gpu(gpus: &[GpuReport]) -> (r: Vec<Finding>)
    ensures
        r.deep_view() == gpu_report(gpus.deep_view()),
{
    let ghost all = gpus.deep_view();
    let mut out: Vec<Finding> = Vec::new();
    let mut hardware = false;
    for i in 0..gpus.len()
        invariant
            all == gpus.deep_view(),
            !hardware == (forall|j: int| 0 <= j < i ==> (#[trigger] all[j]).is_software),
    {
        assert(all[i as int] == gpus[i as int].deep_view());
        if !gpus[i].is_software {
            hardware = true;
        }
    }
    if !hardware && gpus.len() > 0 {
        let f = Finding::new(
            "gpu.software_only",
            "No hardware graphics adapter is active",
            Severity::Problem,
            Confidence::SpecGrounded,
        ).observed("only a software renderer was enumerated").expected(
            "at least one hardware adapter",
        ).basis("DXGI adapter enumeration").recommend(
            "Either the GPU driver is not installed or the adapter has failed. Find out which before buying.",
        );
        out.push(f);
    }
    assert(out.deep_view() == gpu_findings(all));
    sorted(out)
}

// ---------------------------------------------------------------------------
// Stability
// ---------------------------------------------------------------------------

/// Crashes within the last thirty days.
pub open spec fn crash_findings(c: CrashHistoryView) -> Seq<FindingView> {
    if c.minidumps_last_30_days >= 3 {
        seq![
            finding(
                "crashes.recent"@,
                "The machine has been crashing recently"@,
                Severity::Problem,
                Confidence::SpecGrounded,
                dec(c.minidumps_last_30_days) + " blue screens in the last 30 days ("@ + dec(
                    c.minidump_count,
                ) + " recorded in total)"@,
                "no recent bugchecks"@,
                "Crash dump files in C:\\Windows\\Minidump"@,
                "A ten-minute inspection will not reproduce this. Ask the seller directly what the crashes were."@,
            ),
        ]
    } else {
        seq![]
    }
}

/// Errors that the hardware itself reported.
pub open spec fn hardware_error_findings(c: CrashHistoryView) -> Seq<FindingView> {
    if c.whea_uncorrected_count > 0 {
        seq![
            finding(
                "crashes.whea"@,
                "Windows has logged hardware errors"@,
                Severity::Problem,
                Confidence::SpecGrounded,
                dec(c.whea_uncorrected_count) + " error-level WHEA events"@,
                "none"@,
                "Microsoft-Windows-WHEA-Logger events in the System log"@,
                "These indicate genuine hardware faults in the CPU, memory or PCIe devices, not software problems."@,
            ),
        ]
    } else {
        seq![]
    }
}

/// Losses of power.
pub open spec fn power_loss_findings(c: CrashHistoryView) -> Seq<FindingView> {
    match c.unexpected_shutdowns.get() {
        Some(shutdowns) if shutdowns.len() >= 20 => seq![
            finding(
                "crashes.power"@,
                "The machine loses power without shutting down cleanly"@,
                Severity::Watch,
                Confidence::Heuristic,
                dec(shutdowns.len()) + " unexpected shutdowns recorded"@,
                "a handful at most"@,
                "Kernel-Power event 41 in the System log"@,
                "Can be an unreliable mains supply rather than the machine, but on a laptop it may point at a failing battery or overheating. Ask."@,
            ),
        ],
        _ => seq![],
    }
}

/// The report on stability.
pub open spec fn stability_report(c: CrashHistoryView) -> Seq<FindingView> {
    worst_first(crash_findings(c) + hardware_error_findings(c) + power_loss_findings(c))
}

fn crash_rule(c: &CrashHistory, out: &mut Vec<Finding>)
    ensures
        final(out).deep_view() == old(out).deep_view() + crash_findings(c.deep_view()),
{
    if c.minidumps_last_30_days >= 3 {
        let mut observed = numbered(
            c.minidumps_last_30_days as u128,
            " blue screens in the last 30 days (",
        );
        push_dec(&mut observed, c.minidump_count as u128);
        observed.append(" recorded in total)");
        let f = Finding::new(
            "crashes.recent",
            "The machine has been crashing recently",
            Severity::Problem,
            Confidence::SpecGrounded,
        ).observed(observed.as_str()).expected("no recent bugchecks").basis(
            "Crash dump files in C:\\Windows\\Minidump",
        ).recommend(
            "A ten-minute inspection will not reproduce this. Ask the seller directly what the crashes were.",
        );
        out.push(f);
    }
}

pub fn stability(c: &CrashHistory) -> (r: Vec<Finding>)
    ensures
        r.deep_view() == stability_report(c.deep_view()),
{
    let mut out: Vec<Finding> = Vec::new();
    crash_rule(c, &mut out);
    let ghost crashes = out.deep_view();
    if c.whea_uncorrected_count > 0 {
        let f = Finding::new(
            "crashes.whea",
            "Windows has logged hardware errors",
            Severity::Problem,
            Confidence::SpecGrounded,
        ).observed(
            numbered(c.whea_uncorrected_count as u128, " error-level WHEA events").as_str(),
        ).expected("none").basis("Microsoft-Windows-WHEA-Logger events in the System log").recommend(
            "These indicate genuine hardware faults in the CPU, memory or PCIe devices, not software problems.",
        );
        out.push(f);
    }
    assert(out.deep_view() == crashes + hardware_error_findings(c.deep_view()));
    let ghost errors = out.deep_view();
    if let Some(shutdowns) = c.unexpected_shutdowns.get() {
        if shutdowns.len() >= 20 {
            let f = Finding::new(
                "crashes.power",
                "The machine loses power without shutting down cleanly",
                Severity::Watch,
                Confidence::Heuristic,
            ).observed(
                numbered(shutdowns.len() as u128, " unexpected shutdowns recorded").as_str(),
            ).expected("a handful at most").basis("Kernel-Power event 41 in the System log").recommend(
                "Can be an unreliable mains supply rather than the machine, but on a laptop it may point at a failing battery or overheating. Ask.",
            );
            out.push(f);
        }
    }
    assert(out.deep_view() == errors + power_loss_findings(c.deep_view()));
    sorted(out)
}

// ---------------------------------------------------------------------------
// The whole machine
// ---------------------------------------------------------------------------

/// The reports on the components, one after another.
pub open spec fn component_findings(inv: InventoryView) -> Seq<FindingView> {
    storage_report(inv.drives) + battery_report(inv.batteries, inv.battery_history) + memory_report(
        inv.memory,
    ) + firmware_report(inv.firmware) + stability_report(inv.crashes) + (match inv.gpus.get() {
        Some(gpus) => gpu_report(gpus),
        None => seq![],
    })
}

/// Evaluate every component at once.
pub fn evaluate(inv: &Inventory) -> (r: Vec<Finding>)
    requires
        inv.deep_view().batteries.get() matches Some(packs) ==> packs_wf(packs),
    ensures
        r.deep_view() == worst_first(component_findings(inv.deep_view())),
{
    let mut all: Vec<Finding> = Vec::new();
    let drives = inv.drives.as_slice();
    assert(drives.deep_view() == inv.drives.deep_view());
    extend(&mut all, storage(drives));
    extend(&mut all, battery(&inv.batteries, &inv.battery_history));
    extend(&mut all, memory(&inv.memory));
    extend(&mut all, firmware(&inv.firmware));
    extend(&mut all, stability(&inv.crashes));
    if let Some(gpus) = inv.gpus.get() {
        let list = gpus.as_slice();
        assert(list.deep_view() == gpus.deep_view());
        extend(&mut all, gpu(list));
    }
    assert(all.deep_view() == component_findings(inv.deep_view()));
    sorted(all)
}

} // verus!
