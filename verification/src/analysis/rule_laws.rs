//! When each rule speaks, and when it is silent.
//!
//! A report is what the buyer reads, so each law here is about a whole report: which measured
//! values put a finding with a given id into it, how severe it is, and that it is there once.
use vstd::prelude::*;

use crate::analysis::findings::{
    age_findings, battery_findings, battery_report, channel_findings, component_findings,
    crash_findings, critical_warning_findings, degradation_findings, drive_findings, drive_label,
    drives_findings, endurance_findings, firmware_findings, firmware_report, gpu_findings,
    gpu_report, hardware_error_findings, joined, life_findings, media_error_findings,
    memory_report, pack_findings, packs_findings, pending_findings, power_loss_findings,
    reallocated_findings, soldered_findings, spare_findings, speed_findings, stability_report,
    storage_report, swap_findings, tenths_of_years, uncorrectable_findings,
};
use crate::analysis::order::{count_id, counts_add_up, ordering_keeps_ids, worst_first};
use crate::analysis::stress_laws::is_percentage;
use crate::measure::Share;
use crate::model::{Confidence, FindingView, ReadingView, Severity};
use crate::probes::ata_smart::AtaHealthView;
use crate::probes::battery::BatteryReportView;
use crate::probes::battery_history::BatteryHistoryView;
use crate::probes::crashes::CrashHistoryView;
use crate::probes::firmware::FirmwareReportView;
use crate::probes::gpu::GpuReportView;
use crate::probes::memory::{ChannelConfig, MemoryReportView};
use crate::probes::storage::{DriveHealthView, DriveReportView, NvmeHealthView};
use crate::probes::InventoryView;
use crate::text::number::{
    dec, hex2, nearest, nearest_is_near, notation_stands_for_the_number, tenths,
};

verus! {

/// The report holds one finding with this id, and it says this.
pub open spec fn told_once(
    report: Seq<FindingView>,
    id: Seq<char>,
    severity: Severity,
    confidence: Confidence,
    title: Seq<char>,
    observed: Seq<char>,
) -> bool {
    &&& count_id(report, id) == 1
    &&& exists|i: int|
        0 <= i < report.len() && (#[trigger] report[i]).id == id && report[i].severity == severity
            && report[i].confidence == confidence && report[i].title == title && report[i].observed
            == observed
}

/// The report holds no finding with this id.
pub open spec fn silent(report: Seq<FindingView>, id: Seq<char>) -> bool {
    count_id(report, id) == 0
}

/// The number of years, in tenths, that is nearest to a number of hours; a year has 8,766.
pub open spec fn is_age(t: nat, hours: u64) -> bool {
    -8_766 <= 2 * (8_766 * t - 10 * hours) <= 8_766
}

// ---------------------------------------------------------------------------
// Counting
// ---------------------------------------------------------------------------

/// The findings of a rule that speaks at most once, with an id.
spec fn hits(s: Seq<FindingView>, id: Seq<char>) -> nat {
    if s.len() == 1 && s[0].id == id {
        1
    } else {
        0
    }
}

proof fn one_or_none(s: Seq<FindingView>, id: Seq<char>)
    requires
        s.len() <= 1,
    ensures
        count_id(s, id) == hits(s, id),
{
    if s.len() == 1 {
        assert(s.drop_first() =~= Seq::<FindingView>::empty());
        assert(count_id(s.drop_first(), id) == 0);
    }
}

/// What a report holds of the rules that made it, where each speaks at most once.
proof fn from_parts(
    a: Seq<FindingView>,
    b: Seq<FindingView>,
    c: Seq<FindingView>,
    d: Seq<FindingView>,
    e: Seq<FindingView>,
    id: Seq<char>,
)
    requires
        a.len() <= 1,
        b.len() <= 1,
        c.len() <= 1,
        d.len() <= 1,
        e.len() <= 1,
    ensures
        ({
            let report = worst_first(a + b + c + d + e);
            &&& count_id(report, id) == hits(a, id) + hits(b, id) + hits(c, id) + hits(d, id)
                + hits(e, id)
            &&& report.len() == a.len() + b.len() + c.len() + d.len() + e.len()
            &&& a.len() == 1 ==> report.contains(a[0])
            &&& b.len() == 1 ==> report.contains(b[0])
            &&& c.len() == 1 ==> report.contains(c[0])
            &&& d.len() == 1 ==> report.contains(d[0])
            &&& e.len() == 1 ==> report.contains(e[0])
        }),
{
    let all = a + b + c + d + e;
    counts_add_up(a + b + c + d, e, id);
    counts_add_up(a + b + c, d, id);
    counts_add_up(a + b, c, id);
    counts_add_up(a, b, id);
    one_or_none(a, id);
    one_or_none(b, id);
    one_or_none(c, id);
    one_or_none(d, id);
    one_or_none(e, id);
    ordering_keeps_ids(all, id, arbitrary());
    if a.len() == 1 {
        assert(all[0] == a[0]);
        ordering_keeps_ids(all, id, a[0]);
    }
    if b.len() == 1 {
        assert(all[a.len() as int] == b[0]);
        ordering_keeps_ids(all, id, b[0]);
    }
    if c.len() == 1 {
        assert(all[(a.len() + b.len()) as int] == c[0]);
        ordering_keeps_ids(all, id, c[0]);
    }
    if d.len() == 1 {
        assert(all[(a.len() + b.len() + c.len()) as int] == d[0]);
        ordering_keeps_ids(all, id, d[0]);
    }
    if e.len() == 1 {
        assert(all[(a.len() + b.len() + c.len() + d.len()) as int] == e[0]);
        ordering_keeps_ids(all, id, e[0]);
    }
}

/// A finding that a report contains is told by it.
proof fn contained_is_told(report: Seq<FindingView>, f: FindingView)
    requires
        report.contains(f),
        count_id(report, f.id) == 1,
    ensures
        told_once(report, f.id, f.severity, f.confidence, f.title, f.observed),
{
    let i = choose|i: int| 0 <= i < report.len() && report[i] == f;
    assert(report[i].id == f.id);
}

// ---------------------------------------------------------------------------
// Storage
// ---------------------------------------------------------------------------

proof fn suffixed_ids_differ(p: Seq<char>, q: Seq<char>, x: Seq<char>)
    requires
        p.len() != q.len() || exists|k: int| 0 <= k < p.len() && #[trigger] p[k] != q[k],
    ensures
        p + x != q + x,
{
    if p.len() == q.len() {
        let k = choose|k: int| 0 <= k < p.len() && #[trigger] p[k] != q[k];
        assert((p + x)[k] != (q + x)[k]);
    } else {
        assert((p + x).len() != (q + x).len());
    }
}

proof fn storage_ids_differ(index: u32)
    ensures
        ({
            let x = dec(index as nat);
            &&& "storage.pending."@ + x != "storage.uncorrectable."@ + x
            &&& "storage.pending."@ + x != "storage.realloc."@ + x
            &&& "storage.pending."@ + x != "storage.life."@ + x
            &&& "storage.pending."@ + x != "storage.age."@ + x
            &&& "storage.uncorrectable."@ + x != "storage.realloc."@ + x
            &&& "storage.uncorrectable."@ + x != "storage.life."@ + x
            &&& "storage.uncorrectable."@ + x != "storage.age."@ + x
            &&& "storage.realloc."@ + x != "storage.life."@ + x
            &&& "storage.realloc."@ + x != "storage.age."@ + x
            &&& "storage.life."@ + x != "storage.age."@ + x
            &&& "storage.critical."@ + x != "storage.used."@ + x
            &&& "storage.critical."@ + x != "storage.spare."@ + x
            &&& "storage.critical."@ + x != "storage.media."@ + x
            &&& "storage.critical."@ + x != "storage.age."@ + x
            &&& "storage.used."@ + x != "storage.spare."@ + x
            &&& "storage.used."@ + x != "storage.media."@ + x
            &&& "storage.used."@ + x != "storage.age."@ + x
            &&& "storage.spare."@ + x != "storage.media."@ + x
            &&& "storage.spare."@ + x != "storage.age."@ + x
            &&& "storage.media."@ + x != "storage.age."@ + x
        }),
{
    reveal_strlit("storage.pending.");
    reveal_strlit("storage.uncorrectable.");
    reveal_strlit("storage.realloc.");
    reveal_strlit("storage.life.");
    reveal_strlit("storage.age.");
    reveal_strlit("storage.critical.");
    reveal_strlit("storage.used.");
    reveal_strlit("storage.spare.");
    reveal_strlit("storage.media.");
    let x = dec(index as nat);
    assert("storage.pending."@[8] == 'p' && "storage.realloc."@[8] == 'r');
    assert("storage.spare."@[8] == 's' && "storage.media."@[8] == 'm');
    suffixed_ids_differ("storage.pending."@, "storage.uncorrectable."@, x);
    suffixed_ids_differ("storage.pending."@, "storage.realloc."@, x);
    suffixed_ids_differ("storage.pending."@, "storage.life."@, x);
    suffixed_ids_differ("storage.pending."@, "storage.age."@, x);
    suffixed_ids_differ("storage.uncorrectable."@, "storage.realloc."@, x);
    suffixed_ids_differ("storage.uncorrectable."@, "storage.life."@, x);
    suffixed_ids_differ("storage.uncorrectable."@, "storage.age."@, x);
    suffixed_ids_differ("storage.realloc."@, "storage.life."@, x);
    suffixed_ids_differ("storage.realloc."@, "storage.age."@, x);
    suffixed_ids_differ("storage.life."@, "storage.age."@, x);
    suffixed_ids_differ("storage.critical."@, "storage.used."@, x);
    suffixed_ids_differ("storage.critical."@, "storage.spare."@, x);
    suffixed_ids_differ("storage.critical."@, "storage.media."@, x);
    suffixed_ids_differ("storage.critical."@, "storage.age."@, x);
    suffixed_ids_differ("storage.used."@, "storage.spare."@, x);
    suffixed_ids_differ("storage.used."@, "storage.media."@, x);
    suffixed_ids_differ("storage.used."@, "storage.age."@, x);
    suffixed_ids_differ("storage.spare."@, "storage.media."@, x);
    suffixed_ids_differ("storage.spare."@, "storage.age."@, x);
    suffixed_ids_differ("storage.media."@, "storage.age."@, x);
}

/// The model of a drive, or its number where the model is not known.
pub open spec fn called(d: DriveReportView) -> Seq<char> {
    match d.model {
        ReadingView::Value { value, .. } => value,
        ReadingView::Missing { .. } => "Drive "@ + dec(d.index as nat),
    }
}

/// What a report says of a drive's power-on hours: nothing where none are known, the age where
/// there are any, and a warning from five years on.
pub open spec fn age_is_told(
    report: Seq<FindingView>,
    d: DriveReportView,
    hours: ReadingView<u64>,
) -> bool {
    let id = "storage.age."@ + dec(d.index as nat);
    match hours.get() {
        Some(h) if h > 0 => exists|t: nat|
            #[trigger] is_age(t, h) && told_once(
                report,
                id,
                if h >= 43_830 {
                    Severity::Watch
                } else {
                    Severity::Fine
                },
                Confidence::SpecGrounded,
                called(d) + " has "@ + dec(h as nat) + " power-on hours"@,
                dec(h as nat) + " hours, about "@ + tenths(t) + " years of powered operation"@,
            ),
        _ => silent(report, id),
    }
}

proof fn age_holds(h: u64)
    ensures
        is_age(tenths_of_years(h), h),
{
    nearest_is_near((10 * h) as nat, 8_766);
}

proof fn one_drive_alone(d: DriveReportView)
    ensures
        drives_findings(seq![d]) == drive_findings(d),
{
    let one = seq![d];
    assert(one.drop_last() =~= Seq::<DriveReportView>::empty());
    assert(drives_findings(one.drop_last()) =~= Seq::<FindingView>::empty());
    assert(one.last() == d);
    assert(drives_findings(one) =~= drive_findings(d));
}

/// What a report says of an ATA drive. Sectors that are pending or uncorrectable are a problem,
/// each of them, from the first on; reallocated ones are worth watching, and more than fifty a
/// problem; endurance below a fifth is a problem; and the age is told. Nothing else is said, and
/// nothing of a figure that the drive did not give.
#[verifier::rlimit(40)]
pub proof fn what_is_said_of_an_ata_drive(d: DriveReportView, a: AtaHealthView)
    requires
        d.health.get() == Some(DriveHealthView::Ata(a)),
    ensures
        ({
            let report = storage_report(seq![d]);
            let x = dec(d.index as nat);
            &&& match a.pending_sectors.get() {
                Some(n) if n > 0 => told_once(
                    report,
                    "storage.pending."@ + x,
                    Severity::Problem,
                    Confidence::SpecGrounded,
                    called(d) + " has unreadable sectors"@,
                    dec(n as nat) + " sector(s) pending reallocation"@,
                ),
                _ => silent(report, "storage.pending."@ + x),
            }
            &&& match a.uncorrectable_sectors.get() {
                Some(n) if n > 0 => told_once(
                    report,
                    "storage.uncorrectable."@ + x,
                    Severity::Problem,
                    Confidence::SpecGrounded,
                    called(d) + " has uncorrectable sectors"@,
                    dec(n as nat) + " uncorrectable sector(s)"@,
                ),
                _ => silent(report, "storage.uncorrectable."@ + x),
            }
            &&& match a.reallocated_sectors.get() {
                Some(n) if n >= 51 => told_once(
                    report,
                    "storage.realloc."@ + x,
                    Severity::Problem,
                    Confidence::SpecGrounded,
                    called(d) + " has extensive sector remapping"@,
                    dec(n as nat) + " reallocated sectors"@,
                ),
                Some(n) if n >= 1 => told_once(
                    report,
                    "storage.realloc."@ + x,
                    Severity::Watch,
                    Confidence::SpecGrounded,
                    called(d) + " has remapped sectors"@,
                    dec(n as nat) + " reallocated sector(s)"@,
                ),
                _ => silent(report, "storage.realloc."@ + x),
            }
            &&& match a.life_remaining_percent.get() {
                Some(n) if n <= 19 => told_once(
                    report,
                    "storage.life."@ + x,
                    Severity::Problem,
                    Confidence::SpecGrounded,
                    called(d) + " is near the end of its write endurance"@,
                    dec(n as nat) + "% endurance remaining"@,
                ),
                _ => silent(report, "storage.life."@ + x),
            }
            &&& age_is_told(report, d, a.power_on_hours)
            &&& report.len() == count_id(report, "storage.pending."@ + x) + count_id(
                report,
                "storage.uncorrectable."@ + x,
            ) + count_id(report, "storage.realloc."@ + x) + count_id(report, "storage.life."@ + x)
                + count_id(report, "storage.age."@ + x)
        }),
{
    let label = drive_label(d);
    let x = dec(d.index as nat);
    let report = storage_report(seq![d]);
    one_drive_alone(d);
    storage_ids_differ(d.index);
    let p = pending_findings(label, d.index, a.pending_sectors);
    let u = uncorrectable_findings(label, d.index, a.uncorrectable_sectors);
    let r = reallocated_findings(label, d.index, a.reallocated_sectors);
    let l = life_findings(label, d.index, a.life_remaining_percent);
    let g = age_findings(label, d.index, a.power_on_hours);
    from_parts(p, u, r, l, g, "storage.pending."@ + x);
    from_parts(p, u, r, l, g, "storage.uncorrectable."@ + x);
    from_parts(p, u, r, l, g, "storage.realloc."@ + x);
    from_parts(p, u, r, l, g, "storage.life."@ + x);
    from_parts(p, u, r, l, g, "storage.age."@ + x);
    if p.len() == 1 {
        contained_is_told(report, p[0]);
    }
    if u.len() == 1 {
        contained_is_told(report, u[0]);
    }
    if r.len() == 1 {
        contained_is_told(report, r[0]);
    }
    if l.len() == 1 {
        contained_is_told(report, l[0]);
    }
    if g.len() == 1 {
        contained_is_told(report, g[0]);
        age_holds(a.power_on_hours.get()->0);
    }
}

/// What a report says of an NVMe drive. Any warning bit that its controller sets is critical, as
/// are spare blocks below the drive's own threshold; nine tenths of the rated endurance used are
/// a problem and eight tenths worth watching; a media error is a problem; and the age is told.
/// Nothing else is said, and nothing of a figure that the drive did not give.
#[verifier::rlimit(40)]
pub proof fn what_is_said_of_an_nvme_drive(d: DriveReportView, n: NvmeHealthView)
    requires
        d.health.get() == Some(DriveHealthView::Nvme(n)),
    ensures
        ({
            let report = storage_report(seq![d]);
            let x = dec(d.index as nat);
            &&& if n.critical_warning != 0 {
                told_once(
                    report,
                    "storage.critical."@ + x,
                    Severity::Critical,
                    Confidence::SpecGrounded,
                    called(d) + " is reporting a critical warning"@,
                    "critical warning bitmask 0x"@ + hex2(n.critical_warning),
                )
            } else {
                silent(report, "storage.critical."@ + x)
            }
            &&& match n.percentage_used.get() {
                Some(used) if used >= 90 => told_once(
                    report,
                    "storage.used."@ + x,
                    Severity::Problem,
                    Confidence::SpecGrounded,
                    called(d) + " has consumed its rated endurance"@,
                    dec(used as nat) + "% of rated write endurance used"@,
                ),
                Some(used) if used >= 80 => told_once(
                    report,
                    "storage.used."@ + x,
                    Severity::Watch,
                    Confidence::SpecGrounded,
                    called(d) + " is well into its rated endurance"@,
                    dec(used as nat) + "% of rated write endurance used"@,
                ),
                _ => silent(report, "storage.used."@ + x),
            }
            &&& match (
                n.available_spare_percent.get(),
                n.available_spare_threshold_percent.get(),
            ) {
                (Some(spare), Some(limit)) if spare < limit => told_once(
                    report,
                    "storage.spare."@ + x,
                    Severity::Critical,
                    Confidence::SpecGrounded,
                    called(d) + " has exhausted its spare blocks"@,
                    dec(spare as nat) + "% spare remaining"@,
                ),
                _ => silent(report, "storage.spare."@ + x),
            }
            &&& match n.media_errors.get() {
                Some(errors) if errors > 0 => told_once(
                    report,
                    "storage.media."@ + x,
                    Severity::Problem,
                    Confidence::SpecGrounded,
                    called(d) + " has logged media errors"@,
                    dec(errors as nat) + " media/data-integrity error(s)"@,
                ),
                _ => silent(report, "storage.media."@ + x),
            }
            &&& age_is_told(report, d, n.power_on_hours)
            &&& report.len() == count_id(report, "storage.critical."@ + x) + count_id(
                report,
                "storage.used."@ + x,
            ) + count_id(report, "storage.spare."@ + x) + count_id(report, "storage.media."@ + x)
                + count_id(report, "storage.age."@ + x)
        }),
{
    let label = drive_label(d);
    let x = dec(d.index as nat);
    let report = storage_report(seq![d]);
    one_drive_alone(d);
    storage_ids_differ(d.index);
    let c = critical_warning_findings(label, d.index, n.critical_warning);
    let u = endurance_findings(label, d.index, n.percentage_used);
    let s = spare_findings(
        label,
        d.index,
        n.available_spare_percent,
        n.available_spare_threshold_percent,
    );
    let m = media_error_findings(label, d.index, n.media_errors);
    let g = age_findings(label, d.index, n.power_on_hours);
    from_parts(c, u, s, m, g, "storage.critical."@ + x);
    from_parts(c, u, s, m, g, "storage.used."@ + x);
    from_parts(c, u, s, m, g, "storage.spare."@ + x);
    from_parts(c, u, s, m, g, "storage.media."@ + x);
    from_parts(c, u, s, m, g, "storage.age."@ + x);
    if c.len() == 1 {
        contained_is_told(report, c[0]);
    }
    if u.len() == 1 {
        contained_is_told(report, u[0]);
    }
    if s.len() == 1 {
        contained_is_told(report, s[0]);
    }
    if m.len() == 1 {
        contained_is_told(report, m[0]);
    }
    if g.len() == 1 {
        contained_is_told(report, g[0]);
        age_holds(n.power_on_hours.get()->0);
    }
}

/// How many findings the reports on single drives hold with an id.
pub open spec fn single_reports_count(drives: Seq<DriveReportView>, id: Seq<char>) -> nat
    decreases drives.len(),
{
    if drives.len() == 0 {
        0
    } else {
        single_reports_count(drives.drop_first(), id) + count_id(storage_report(seq![drives[0]]), id)
    }
}

/// The report on several drives holds what the reports on the single drives hold: every finding
/// of theirs, no other, and as many of each id. A drive whose health could not be read adds
/// nothing.
pub proof fn the_storage_report_covers_every_drive(
    drives: Seq<DriveReportView>,
    id: Seq<char>,
    f: FindingView,
)
    ensures
        count_id(storage_report(drives), id) == single_reports_count(drives, id),
        storage_report(drives).contains(f) <==> exists|i: int|
            0 <= i < drives.len() && storage_report(seq![#[trigger] drives[i]]).contains(f),
        forall|i: int|
            0 <= i < drives.len() && (#[trigger] drives[i]).health.get() is None
                ==> storage_report(seq![drives[i]]).len() == 0,
    decreases drives.len(),
{
    let all = drives_findings(drives);
    ordering_keeps_ids(all, id, f);
    assert forall|i: int|
        0 <= i < drives.len() && (#[trigger] drives[i]).health.get() is None implies storage_report(
        seq![drives[i]],
    ).len() == 0 by {
        one_drive_alone(drives[i]);
        ordering_keeps_ids(drive_findings(drives[i]), id, f);
    }
    if drives.len() > 0 {
        let d = drives[0];
        let rest = drives.drop_first();
        the_storage_report_covers_every_drive(rest, id, f);
        crate::analysis::laws::drives_are_judged_one_by_one(seq![d], rest);
        assert(seq![d] + rest =~= drives);
        one_drive_alone(d);
        ordering_keeps_ids(drive_findings(d), id, f);
        ordering_keeps_ids(drives_findings(rest), id, f);
        counts_add_up(drive_findings(d), drives_findings(rest), id);
        both_or_either(drive_findings(d), drives_findings(rest), f);
        if storage_report(rest).contains(f) {
            let i = choose|i: int|
                0 <= i < rest.len() && storage_report(seq![#[trigger] rest[i]]).contains(f);
            assert(drives[i + 1] == rest[i]);
        }
        if exists|i: int|
            0 <= i < drives.len() && storage_report(seq![#[trigger] drives[i]]).contains(f) {
            let i = choose|i: int|
                0 <= i < drives.len() && storage_report(seq![#[trigger] drives[i]]).contains(f);
            if i > 0 {
                assert(rest[i - 1] == drives[i]);
            }
        }
        if storage_report(seq![d]).contains(f) {
            assert(drives[0] == d);
        }
    }
}

proof fn both_or_either(a: Seq<FindingView>, b: Seq<FindingView>, f: FindingView)
    ensures
        (a + b).contains(f) <==> a.contains(f) || b.contains(f),
{
    if a.contains(f) {
        let i = choose|i: int| 0 <= i < a.len() && a[i] == f;
        assert((a + b)[i] == f);
    }
    if b.contains(f) {
        let i = choose|i: int| 0 <= i < b.len() && b[i] == f;
        assert((a + b)[a.len() + i] == f);
    }
}

// ---------------------------------------------------------------------------
// Battery
// ---------------------------------------------------------------------------

/// A number of tenths of a percent is the share of `part` in `whole`, to the nearest tenth.
pub open spec fn is_tenths_of_percent(t: nat, part: nat, whole: nat) -> bool {
    -(whole as int) <= 2 * (t * whole - 1000 * part) <= whole
}

/// A number of percent is the nearest to a rate in millionths of a percent.
pub open spec fn is_rate(p: nat, micro: int) -> bool {
    -1_000_000 <= 2 * (1_000_000 * p - micro) <= 1_000_000
}

/// A pack whose health is known.
pub open spec fn health_known() -> spec_fn(BatteryReportView) -> bool {
    |pack: BatteryReportView| pack.health.get() is Some
}

proof fn pack_ids_differ(i: nat, j: nat)
    ensures
        "battery.health."@ + dec(i) == "battery.health."@ + dec(j) ==> i == j,
        "battery.health."@ + dec(i) != "battery.swapped"@,
        "battery.health."@ + dec(i) != "battery.degradation"@,
        "battery.swapped"@ != "battery.degradation"@,
{
    reveal_strlit("battery.health.");
    reveal_strlit("battery.swapped");
    reveal_strlit("battery.degradation");
    let p = "battery.health."@;
    if p + dec(i) == p + dec(j) {
        assert((p + dec(i)).skip(p.len() as int) =~= dec(i));
        assert((p + dec(j)).skip(p.len() as int) =~= dec(j));
        notation_stands_for_the_number(i);
        notation_stands_for_the_number(j);
    }
    assert((p + dec(i))[8] == 'h');
    assert("battery.swapped"@[8] == 's');
    assert("battery.degradation"@[8] == 'd');
}

proof fn packs_told(packs: Seq<BatteryReportView>, i: nat)
    ensures
        ({
            let s = packs_findings(packs);
            &&& count_id(s, "battery.health."@ + dec(i)) == if i < packs.len()
                && packs[i as int].health.get() is Some {
                1nat
            } else {
                0
            }
            &&& count_id(s, "battery.swapped"@) == 0
            &&& count_id(s, "battery.degradation"@) == 0
            &&& s.len() == packs.filter(health_known()).len()
            &&& i < packs.len() && packs[i as int].health.get() is Some ==> s.contains(
                pack_findings(i, packs[i as int])[0],
            )
        }),
    decreases packs.len(),
{
    reveal(Seq::filter);
    let id = "battery.health."@ + dec(i);
    if packs.len() > 0 {
        let k = (packs.len() - 1) as nat;
        let head = packs.drop_last();
        let last = pack_findings(k, packs.last());
        packs_told(head, i);
        pack_ids_differ(i, k);
        counts_add_up(packs_findings(head), last, id);
        counts_add_up(packs_findings(head), last, "battery.swapped"@);
        counts_add_up(packs_findings(head), last, "battery.degradation"@);
        one_or_none(last, id);
        one_or_none(last, "battery.swapped"@);
        one_or_none(last, "battery.degradation"@);
        pack_ids_differ(k, k);
        if i < packs.len() && packs[i as int].health.get() is Some {
            let f = pack_findings(i, packs[i as int])[0];
            both_or_either(packs_findings(head), last, f);
            if i == k {
                assert(last[0] == f);
            }
        }
    }
}

proof fn battery_parts(
    batteries: ReadingView<Seq<BatteryReportView>>,
    history: ReadingView<BatteryHistoryView>,
    id: Seq<char>,
    f: FindingView,
)
    ensures
        ({
            let report = battery_report(batteries, history);
            let packs = match batteries.get() {
                Some(packs) => packs_findings(packs),
                None => seq![],
            };
            let swaps = match history.get() {
                Some(h) => swap_findings(h),
                None => seq![],
            };
            let rates = match history.get() {
                Some(h) => degradation_findings(h),
                None => seq![],
            };
            &&& count_id(report, id) == count_id(packs, id) + hits(swaps, id) + hits(rates, id)
            &&& report.len() == packs.len() + swaps.len() + rates.len()
            &&& report.contains(f) <==> packs.contains(f) || swaps.contains(f) || rates.contains(f)
        }),
{
    let all = battery_findings(batteries, history);
    let packs = match batteries.get() {
        Some(packs) => packs_findings(packs),
        None => seq![],
    };
    let swaps = match history.get() {
        Some(h) => swap_findings(h),
        None => seq![],
    };
    let rates = match history.get() {
        Some(h) => degradation_findings(h),
        None => seq![],
    };
    assert(all =~= packs + (swaps + rates));
    ordering_keeps_ids(all, id, f);
    counts_add_up(packs, swaps + rates, id);
    counts_add_up(swaps, rates, id);
    one_or_none(swaps, id);
    one_or_none(rates, id);
    both_or_either(packs, swaps + rates, f);
    both_or_either(swaps, rates, f);
}

/// What a report says of the pack in place `i`: its share of the design capacity, which is a
/// problem below three fifths, worth watching below four fifths, and fine from there on. Of a
/// pack whose health is not known it says nothing.
pub proof fn what_is_said_of_a_pack(
    batteries: ReadingView<Seq<BatteryReportView>>,
    history: ReadingView<BatteryHistoryView>,
    packs: Seq<BatteryReportView>,
    i: nat,
)
    requires
        batteries.get() == Some(packs),
        i < packs.len(),
        packs[i as int].health.get() matches Some(h) ==> h.whole > 0,
    ensures
        ({
            let report = battery_report(batteries, history);
            let id = "battery.health."@ + dec(i);
            match packs[i as int].health.get() {
                Some(h) => exists|p: nat, t: nat|
                    #[trigger] is_percentage(p, h.part as nat, h.whole as nat)
                        && #[trigger] is_tenths_of_percent(t, h.part as nat, h.whole as nat)
                        && told_once(
                        report,
                        id,
                        if 5 * h.part < 3 * h.whole {
                            Severity::Problem
                        } else if 5 * h.part < 4 * h.whole {
                            Severity::Watch
                        } else {
                            Severity::Fine
                        },
                        Confidence::SpecGrounded,
                        "Battery at "@ + dec(p) + "% of design capacity"@,
                        tenths(t) + "% of design capacity"@,
                    ),
                None => silent(report, id),
            }
        }),
{
    let report = battery_report(batteries, history);
    let id = "battery.health."@ + dec(i);
    let pack = packs[i as int];
    packs_told(packs, i);
    pack_ids_differ(i, i);
    let found = pack_findings(i, pack);
    battery_parts(batteries, history, id, found[0]);
    if let Some(h) = pack.health.get() {
        contained_is_told(report, found[0]);
        let part = h.part as nat;
        let whole = h.whole as nat;
        nearest_is_near((100 * h.part) as nat, whole);
        nearest_is_near((1000 * h.part) as nat, whole);
        assert(is_percentage(nearest((100 * h.part) as nat, whole), part, whole));
        assert(is_tenths_of_percent(nearest((1000 * h.part) as nat, whole), part, whole));
    }
}

/// What a report says of the battery's history: that the pack was changed, where a change was
/// seen, and that the capacity falls quickly, where it falls by more than fifteen percent of the
/// design capacity a year. Without a history it says neither.
pub proof fn what_is_said_of_the_battery_history(
    batteries: ReadingView<Seq<BatteryReportView>>,
    history: ReadingView<BatteryHistoryView>,
)
    ensures
        ({
            let report = battery_report(batteries, history);
            &&& if history.get() matches Some(h) && h.battery_swap_detected {
                told_once(
                    report,
                    "battery.swapped"@,
                    Severity::Watch,
                    Confidence::SpecGrounded,
                    "The battery has been replaced at some point"@,
                    "Windows recorded a battery change in its power history"@,
                )
            } else {
                silent(report, "battery.swapped"@)
            }
            &&& match history.get() {
                Some(h) => match h.degradation_micro_percent_per_year.get() {
                    Some(rate) if rate < -15_000_000 => exists|p: nat|
                        #[trigger] is_rate(p, -rate) && told_once(
                            report,
                            "battery.degradation"@,
                            Severity::Problem,
                            Confidence::SpecGrounded,
                            "Battery capacity is falling quickly"@,
                            "about -"@ + dec(p) + "% of design capacity lost per year"@,
                        ),
                    _ => silent(report, "battery.degradation"@),
                },
                None => silent(report, "battery.degradation"@),
            }
        }),
{
    let report = battery_report(batteries, history);
    pack_ids_differ(0, 0);
    if let Some(packs) = batteries.get() {
        packs_told(packs, 0);
    }
    battery_parts(batteries, history, "battery.swapped"@, arbitrary());
    battery_parts(batteries, history, "battery.degradation"@, arbitrary());
    if let Some(h) = history.get() {
        let swaps = swap_findings(h);
        let rates = degradation_findings(h);
        if swaps.len() == 1 {
            battery_parts(batteries, history, "battery.swapped"@, swaps[0]);
            assert(swaps.contains(swaps[0]));
            contained_is_told(report, swaps[0]);
        }
        if rates.len() == 1 {
            battery_parts(batteries, history, "battery.degradation"@, rates[0]);
            assert(rates.contains(rates[0]));
            contained_is_told(report, rates[0]);
            let rate = h.degradation_micro_percent_per_year.get()->0;
            nearest_is_near((-rate) as nat, 1_000_000);
            assert(is_rate(nearest((-rate) as nat, 1_000_000), -rate));
        }
    }
}

/// A battery report has one finding for each pack whose health is known, and no more than the
/// two on the history.
pub proof fn nothing_else_is_said_of_the_batteries(
    batteries: ReadingView<Seq<BatteryReportView>>,
    history: ReadingView<BatteryHistoryView>,
)
    ensures
        ({
            let report = battery_report(batteries, history);
            report.len() == count_id(report, "battery.swapped"@) + count_id(
                report,
                "battery.degradation"@,
            ) + match batteries.get() {
                Some(packs) => packs.filter(health_known()).len(),
                None => 0,
            }
        }),
{
    pack_ids_differ(0, 0);
    if let Some(packs) = batteries.get() {
        packs_told(packs, 0);
    }
    battery_parts(batteries, history, "battery.swapped"@, arbitrary());
    battery_parts(batteries, history, "battery.degradation"@, arbitrary());
}

// ---------------------------------------------------------------------------
// Memory
// ---------------------------------------------------------------------------

proof fn memory_ids_differ()
    ensures
        "memory.single_channel"@ != "memory.asymmetric"@,
        "memory.single_channel"@ != "memory.below_rated"@,
        "memory.single_channel"@ != "memory.soldered"@,
        "memory.asymmetric"@ != "memory.below_rated"@,
        "memory.asymmetric"@ != "memory.soldered"@,
        "memory.below_rated"@ != "memory.soldered"@,
{
    reveal_strlit("memory.single_channel");
    reveal_strlit("memory.asymmetric");
    reveal_strlit("memory.below_rated");
    reveal_strlit("memory.soldered");
    assert("memory.single_channel"@.len() == 21);
    assert("memory.asymmetric"@.len() == 17);
    assert("memory.below_rated"@.len() == 18);
    assert("memory.soldered"@.len() == 15);
}

/// What a report says of the memory. A single channel is worth mentioning only where a slot is
/// free to change it; modules that do not match, modules below their rated speed and soldered
/// memory always are. None of it is more than worth watching, and nothing else is said.
pub proof fn what_is_said_of_the_memory(mem: MemoryReportView)
    ensures
        ({
            let report = memory_report(mem);
            &&& if 0 < mem.populated_slots < mem.total_slots && mem.channel_config
                == ChannelConfig::Single {
                told_once(
                    report,
                    "memory.single_channel"@,
                    Severity::Watch,
                    Confidence::Heuristic,
                    "Memory is running in single channel"@,
                    dec(mem.populated_slots) + " of "@ + dec(mem.total_slots)
                        + " slots populated, all on one channel"@,
                )
            } else {
                silent(report, "memory.single_channel"@)
            }
            &&& if 0 < mem.populated_slots && mem.channel_config == ChannelConfig::Asymmetric {
                told_once(
                    report,
                    "memory.asymmetric"@,
                    Severity::Watch,
                    Confidence::Heuristic,
                    "Memory modules do not match"@,
                    "populated modules differ in size, speed or part number"@,
                )
            } else {
                silent(report, "memory.asymmetric"@)
            }
            &&& if mem.running_below_rated_speed {
                told_once(
                    report,
                    "memory.below_rated"@,
                    Severity::Watch,
                    Confidence::SpecGrounded,
                    "Memory is running below its rated speed"@,
                    "configured speed is below the modules' own rated speed"@,
                )
            } else {
                silent(report, "memory.below_rated"@)
            }
            &&& if mem.all_soldered {
                told_once(
                    report,
                    "memory.soldered"@,
                    Severity::Watch,
                    Confidence::SpecGrounded,
                    "Memory is soldered and cannot be upgraded"@,
                    dec(mem.total_mb) + " MB, all soldered to the board"@,
                )
            } else {
                silent(report, "memory.soldered"@)
            }
            &&& report.len() == count_id(report, "memory.single_channel"@) + count_id(
                report,
                "memory.asymmetric"@,
            ) + count_id(report, "memory.below_rated"@) + count_id(report, "memory.soldered"@)
        }),
{
    let report = memory_report(mem);
    let c = channel_findings(mem);
    let s = speed_findings(mem);
    let b = soldered_findings(mem);
    let e = Seq::<FindingView>::empty();
    assert(c + s + b + e + e =~= c + s + b);
    memory_ids_differ();
    from_parts(c, s, b, e, e, "memory.single_channel"@);
    from_parts(c, s, b, e, e, "memory.asymmetric"@);
    from_parts(c, s, b, e, e, "memory.below_rated"@);
    from_parts(c, s, b, e, e, "memory.soldered"@);
    if c.len() == 1 {
        contained_is_told(report, c[0]);
    }
    if s.len() == 1 {
        contained_is_told(report, s[0]);
    }
    if b.len() == 1 {
        contained_is_told(report, b[0]);
    }
}

// ---------------------------------------------------------------------------
// Firmware
// ---------------------------------------------------------------------------

/// A list of names reads as its names with a comma and a blank between two of them.
pub proof fn names_are_listed_with_commas(names: Seq<Seq<char>>, last: Seq<char>)
    ensures
        joined(Seq::empty()) == Seq::<char>::empty(),
        joined(seq![last]) == last,
        names.len() > 0 ==> joined(names.push(last)) == joined(names) + ", "@ + last,
{
    assert(names.push(last).drop_last() =~= names);
}

/// What a report says of the firmware: an agent of Absolute/Computrace on disk is critical, and
/// every file of it is named; an injection table alone, without such a file, is worth watching.
/// The launcher on its own is never mentioned, and nothing else is said.
pub proof fn what_is_said_of_the_firmware(fw: FirmwareReportView)
    ensures
        ({
            let report = firmware_report(fw);
            let agents = fw.persistence.absolute_agent_artifacts;
            &&& if agents.len() > 0 {
                told_once(
                    report,
                    "firmware.absolute"@,
                    Severity::Critical,
                    Confidence::SpecGrounded,
                    "Absolute/Computrace anti-theft tracking is installed"@,
                    "found "@ + joined(agents),
                )
            } else {
                silent(report, "firmware.absolute"@)
            }
            &&& if agents.len() == 0 && fw.persistence.wpbt_present {
                told_once(
                    report,
                    "firmware.wpbt"@,
                    Severity::Watch,
                    Confidence::SpecGrounded,
                    "Firmware injects an executable at every boot"@,
                    "a WPBT table is present in ACPI"@,
                )
            } else {
                silent(report, "firmware.wpbt"@)
            }
            &&& report.len() == count_id(report, "firmware.absolute"@) + count_id(
                report,
                "firmware.wpbt"@,
            )
        }),
{
    reveal_strlit("firmware.absolute");
    reveal_strlit("firmware.wpbt");
    assert("firmware.absolute"@.len() == 17);
    assert("firmware.wpbt"@.len() == 13);
    let report = firmware_report(fw);
    let a = firmware_findings(fw);
    let e = Seq::<FindingView>::empty();
    assert(a + e + e + e + e =~= a);
    from_parts(a, e, e, e, e, "firmware.absolute"@);
    from_parts(a, e, e, e, e, "firmware.wpbt"@);
    if a.len() == 1 {
        contained_is_told(report, a[0]);
    }
}

// ---------------------------------------------------------------------------
// Graphics
// ---------------------------------------------------------------------------

/// What a report says of the display adapters: that there is no hardware adapter, where adapters
/// are listed and every one is a software renderer. One hardware adapter, wherever it stands in
/// the list, makes the report empty.
pub proof fn what_is_said_of_the_display_adapters(gpus: Seq<GpuReportView>)
    ensures
        ({
            let report = gpu_report(gpus);
            &&& gpus.len() > 0 && (forall|i: int|
                0 <= i < gpus.len() ==> (#[trigger] gpus[i]).is_software) ==> report.len() == 1
                && told_once(
                report,
                "gpu.software_only"@,
                Severity::Problem,
                Confidence::SpecGrounded,
                "No hardware graphics adapter is active"@,
                "only a software renderer was enumerated"@,
            )
            &&& (exists|i: int| 0 <= i < gpus.len() && !(#[trigger] gpus[i]).is_software)
                ==> report.len() == 0
            &&& gpus.len() == 0 ==> report.len() == 0
        }),
{
    let report = gpu_report(gpus);
    let a = gpu_findings(gpus);
    let e = Seq::<FindingView>::empty();
    assert(a + e + e + e + e =~= a);
    from_parts(a, e, e, e, e, "gpu.software_only"@);
    if a.len() == 1 {
        contained_is_told(report, a[0]);
    }
}

// ---------------------------------------------------------------------------
// Stability
// ---------------------------------------------------------------------------

/// What a report says of the machine's stability. Three crash dumps of the last thirty days or
/// more are a problem, as is any hardware error that was not corrected; twenty losses of power or
/// more are worth watching. Nothing else is said.
pub proof fn what_is_said_of_stability(c: CrashHistoryView)
    ensures
        ({
            let report = stability_report(c);
            &&& if c.minidumps_last_30_days > 2 {
                told_once(
                    report,
                    "crashes.recent"@,
                    Severity::Problem,
                    Confidence::SpecGrounded,
                    "The machine has been crashing recently"@,
                    dec(c.minidumps_last_30_days) + " blue screens in the last 30 days ("@ + dec(
                        c.minidump_count,
                    ) + " recorded in total)"@,
                )
            } else {
                silent(report, "crashes.recent"@)
            }
            &&& if c.whea_uncorrected_count != 0 {
                told_once(
                    report,
                    "crashes.whea"@,
                    Severity::Problem,
                    Confidence::SpecGrounded,
                    "Windows has logged hardware errors"@,
                    dec(c.whea_uncorrected_count) + " error-level WHEA events"@,
                )
            } else {
                silent(report, "crashes.whea"@)
            }
            &&& match c.unexpected_shutdowns.get() {
                Some(shutdowns) if shutdowns.len() > 19 => told_once(
                    report,
                    "crashes.power"@,
                    Severity::Watch,
                    Confidence::Heuristic,
                    "The machine loses power without shutting down cleanly"@,
                    dec(shutdowns.len()) + " unexpected shutdowns recorded"@,
                ),
                _ => silent(report, "crashes.power"@),
            }
            &&& report.len() == count_id(report, "crashes.recent"@) + count_id(
                report,
                "crashes.whea"@,
            ) + count_id(report, "crashes.power"@)
        }),
{
    reveal_strlit("crashes.recent");
    reveal_strlit("crashes.whea");
    reveal_strlit("crashes.power");
    assert("crashes.recent"@.len() == 14);
    assert("crashes.whea"@.len() == 12);
    assert("crashes.power"@.len() == 13);
    let report = stability_report(c);
    let r = crash_findings(c);
    let w = hardware_error_findings(c);
    let p = power_loss_findings(c);
    let e = Seq::<FindingView>::empty();
    assert(r + w + p + e + e =~= r + w + p);
    from_parts(r, w, p, e, e, "crashes.recent"@);
    from_parts(r, w, p, e, e, "crashes.whea"@);
    from_parts(r, w, p, e, e, "crashes.power"@);
    if r.len() == 1 {
        contained_is_told(report, r[0]);
    }
    if w.len() == 1 {
        contained_is_told(report, w[0]);
    }
    if p.len() == 1 {
        contained_is_told(report, p[0]);
    }
}

// ---------------------------------------------------------------------------
// The whole machine
// ---------------------------------------------------------------------------

/// The full report holds what the reports on the components hold: every finding of theirs, no
/// other, and as many of each id. Display adapters that could not be listed add nothing.
pub proof fn the_full_report_covers_every_component(
    inv: InventoryView,
    id: Seq<char>,
    f: FindingView,
)
    ensures
        ({
            let report = worst_first(component_findings(inv));
            &&& count_id(report, id) == count_id(storage_report(inv.drives), id) + count_id(
                battery_report(inv.batteries, inv.battery_history),
                id,
            ) + count_id(memory_report(inv.memory), id) + count_id(
                firmware_report(inv.firmware),
                id,
            ) + count_id(stability_report(inv.crashes), id) + match inv.gpus.get() {
                Some(gpus) => count_id(gpu_report(gpus), id),
                None => 0,
            }
            &&& report.contains(f) <==> storage_report(inv.drives).contains(f) || battery_report(
                inv.batteries,
                inv.battery_history,
            ).contains(f) || memory_report(inv.memory).contains(f) || firmware_report(
                inv.firmware,
            ).contains(f) || stability_report(inv.crashes).contains(f) || (
            inv.gpus.get() matches Some(gpus) && gpu_report(gpus).contains(f))
        }),
{
    let a = storage_report(inv.drives);
    let b = battery_report(inv.batteries, inv.battery_history);
    let c = memory_report(inv.memory);
    let d = firmware_report(inv.firmware);
    let e = stability_report(inv.crashes);
    let g = match inv.gpus.get() {
        Some(gpus) => gpu_report(gpus),
        None => seq![],
    };
    ordering_keeps_ids(component_findings(inv), id, f);
    counts_add_up(a + b + c + d + e, g, id);
    counts_add_up(a + b + c + d, e, id);
    counts_add_up(a + b + c, d, id);
    counts_add_up(a + b, c, id);
    counts_add_up(a, b, id);
    both_or_either(a + b + c + d + e, g, f);
    both_or_either(a + b + c + d, e, f);
    both_or_either(a + b + c, d, f);
    both_or_either(a + b, c, f);
    both_or_either(a, b, f);
}

// ---------------------------------------------------------------------------
// Advice
// ---------------------------------------------------------------------------

/// The report's finding with this id expects this.
pub open spec fn expects(report: Seq<FindingView>, id: Seq<char>, text: Seq<char>) -> bool {
    exists|i: int|
        0 <= i < report.len() && (#[trigger] report[i]).id == id && report[i].expected == text
}

/// The report's finding with this id recommends this.
pub open spec fn advises(report: Seq<FindingView>, id: Seq<char>, text: Seq<char>) -> bool {
    exists|i: int|
        0 <= i < report.len() && (#[trigger] report[i]).id == id && report[i].recommendation == text
}

/// The advice on a pack goes with its wear: to replace it below three fifths of its design
/// capacity, to expect less of it below four fifths, and none to speak of otherwise.
pub proof fn advice_on_a_pack_goes_with_its_wear(
    batteries: ReadingView<Seq<BatteryReportView>>,
    history: ReadingView<BatteryHistoryView>,
    packs: Seq<BatteryReportView>,
    i: nat,
    h: Share,
)
    requires
        batteries.get() == Some(packs),
        i < packs.len(),
        packs[i as int].health.get() == Some(h),
        h.whole > 0,
    ensures
        advises(
            battery_report(batteries, history),
            "battery.health."@ + dec(i),
            if 5 * h.part < 3 * h.whole {
                "Expect to replace the pack. Get a quote for this model and take it off the price."@
            } else if 5 * h.part < 4 * h.whole {
                "Noticeably degraded. Usable, but runtime will be well below the original."@
            } else {
                "Healthy for a used machine."@
            },
        ),
{
    let report = battery_report(batteries, history);
    let id = "battery.health."@ + dec(i);
    packs_told(packs, i);
    let f = pack_findings(i, packs[i as int])[0];
    battery_parts(batteries, history, id, f);
    let k = choose|k: int| 0 <= k < report.len() && report[k] == f;
    assert(report[k].id == id);
}

/// A drive that has run out of spare blocks is held to its own threshold, and the report names it.
pub proof fn the_spare_threshold_is_named(d: DriveReportView, n: NvmeHealthView, spare: u8, limit: u8)
    requires
        d.health.get() == Some(DriveHealthView::Nvme(n)),
        n.available_spare_percent.get() == Some(spare),
        n.available_spare_threshold_percent.get() == Some(limit),
        spare < limit,
    ensures
        expects(
            storage_report(seq![d]),
            "storage.spare."@ + dec(d.index as nat),
            "at or above the drive's "@ + dec(limit as nat) + "% threshold"@,
        ),
{
    let label = drive_label(d);
    let report = storage_report(seq![d]);
    let id = "storage.spare."@ + dec(d.index as nat);
    one_drive_alone(d);
    let c = critical_warning_findings(label, d.index, n.critical_warning);
    let u = endurance_findings(label, d.index, n.percentage_used);
    let s = spare_findings(
        label,
        d.index,
        n.available_spare_percent,
        n.available_spare_threshold_percent,
    );
    let m = media_error_findings(label, d.index, n.media_errors);
    let g = age_findings(label, d.index, n.power_on_hours);
    from_parts(c, u, s, m, g, id);
    let k = choose|k: int| 0 <= k < report.len() && report[k] == s[0];
    assert(report[k].id == id);
}

} // verus!
